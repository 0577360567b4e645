use grm::config::{Remote, RemoteType, Repo};
use grm::reconcile::{
    failure_scope, plan_repo_bootstrap, reconcile_repo, reconcile_tree, BootstrapAction,
    FailureKind, FailureScope, FatalError, RepoObservation, RepoOutcome,
};
use grm::remotediff::{ObservedRemote, RemoteAction};

fn declared(name: &str, url: &str) -> Remote {
    Remote { name: name.to_string(), url: url.to_string(), remote_type: RemoteType::Https }
}

fn repo_with(name: &str, remotes: Vec<Remote>) -> Repo {
    Repo { name: name.to_string(), remotes: Some(remotes) }
}

fn healthy_missing(obs_remotes: Vec<ObservedRemote>) -> RepoObservation {
    RepoObservation { exists: false, open_ok: false, bootstrap_ok: true, remotes: Some(obs_remotes) }
}

#[test]
fn clone_bootstrap_uses_first_remote_then_adds_the_rest() {
    let repo = repo_with("r", vec![declared("origin", "U1"), declared("upstream", "U2")]);
    let plan = plan_repo_bootstrap(&repo, false);
    assert_eq!(plan, Ok(BootstrapAction::CloneFirst { url: "U1".to_string() }));

    // After the clone the repository carries the clone source alone; the
    // remote step then only creates the second remote and leaves the clone
    // origin pointing at its URL.
    let obs = healthy_missing(vec![ObservedRemote {
        name: "origin".to_string(),
        url: Some("U1".to_string()),
    }]);
    let outcome = reconcile_repo(&repo, &obs).unwrap();
    match outcome {
        RepoOutcome::Converged { actions, unreadable } => {
            assert_eq!(
                actions,
                vec![RemoteAction::Create { name: "upstream".to_string(), url: "U2".to_string() }]
            );
            assert!(unreadable.is_empty());
        }
        other => panic!("unexpected outcome: {:?}", other),
    }
}

#[test]
fn clone_origin_url_edits_are_still_applied() {
    let repo = repo_with("r", vec![declared("origin", "Unew")]);
    let obs = RepoObservation {
        exists: true,
        open_ok: true,
        bootstrap_ok: false,
        remotes: Some(vec![ObservedRemote {
            name: "origin".to_string(),
            url: Some("Uold".to_string()),
        }]),
    };
    let outcome = reconcile_repo(&repo, &obs).unwrap();
    match outcome {
        RepoOutcome::Converged { actions, .. } => {
            assert_eq!(
                actions,
                vec![RemoteAction::SetUrl { name: "origin".to_string(), url: "Unew".to_string() }]
            );
        }
        other => panic!("unexpected outcome: {:?}", other),
    }
}

#[test]
fn opening_an_invalid_existing_path_is_fatal() {
    let repo = repo_with("broken", vec![declared("origin", "u")]);
    let obs =
        RepoObservation { exists: true, open_ok: false, bootstrap_ok: false, remotes: None };
    assert_eq!(
        reconcile_repo(&repo, &obs),
        Err(FatalError::OpenFailed { name: "broken".to_string() })
    );
}

#[test]
fn empty_declared_remote_list_is_an_invariant_violation() {
    let repo = repo_with("r", vec![]);
    let obs =
        RepoObservation { exists: false, open_ok: false, bootstrap_ok: true, remotes: None };
    assert_eq!(
        reconcile_repo(&repo, &obs),
        Err(FatalError::EmptyRemotes { name: "r".to_string() })
    );
}

#[test]
fn repo_without_declared_remotes_is_initialized_and_left_alone() {
    let repo = Repo { name: "fresh".to_string(), remotes: None };
    let obs =
        RepoObservation { exists: false, open_ok: false, bootstrap_ok: true, remotes: None };
    match reconcile_repo(&repo, &obs).unwrap() {
        RepoOutcome::Converged { actions, unreadable } => {
            assert!(actions.is_empty());
            assert!(unreadable.is_empty());
        }
        other => panic!("unexpected outcome: {:?}", other),
    }
}

#[test]
fn unreadable_remote_list_is_isolated() {
    let repo = repo_with("r", vec![declared("origin", "u")]);
    let obs = RepoObservation { exists: true, open_ok: true, bootstrap_ok: false, remotes: None };
    assert_eq!(reconcile_repo(&repo, &obs), Ok(RepoOutcome::RemotesUnavailable));
}

#[test]
fn one_failed_clone_leaves_siblings_converged() {
    let repos = vec![
        repo_with("first", vec![declared("origin", "u1")]),
        repo_with("second", vec![declared("origin", "u2")]),
        repo_with("third", vec![declared("origin", "u3")]),
    ];
    let obs = vec![
        healthy_missing(vec![ObservedRemote {
            name: "origin".to_string(),
            url: Some("u1".to_string()),
        }]),
        RepoObservation { exists: false, open_ok: false, bootstrap_ok: false, remotes: None },
        healthy_missing(vec![ObservedRemote {
            name: "origin".to_string(),
            url: Some("u3".to_string()),
        }]),
    ];
    let outcomes = reconcile_tree(&repos, &obs).unwrap();
    assert_eq!(outcomes.len(), 3);
    assert!(matches!(outcomes[0], RepoOutcome::Converged { .. }));
    assert_eq!(outcomes[1], RepoOutcome::BootstrapFailed);
    assert!(matches!(outcomes[2], RepoOutcome::Converged { .. }));
    match &outcomes[0] {
        RepoOutcome::Converged { actions, .. } => assert!(actions.is_empty()),
        _ => unreachable!(),
    }
}

#[test]
fn fatal_open_aborts_the_whole_tree() {
    let repos = vec![
        repo_with("ok", vec![declared("origin", "u1")]),
        repo_with("bad", vec![declared("origin", "u2")]),
    ];
    let obs = vec![
        RepoObservation {
            exists: true,
            open_ok: true,
            bootstrap_ok: false,
            remotes: Some(vec![]),
        },
        RepoObservation { exists: true, open_ok: false, bootstrap_ok: false, remotes: None },
    ];
    assert_eq!(
        reconcile_tree(&repos, &obs),
        Err(FatalError::OpenFailed { name: "bad".to_string() })
    );
}

#[test]
fn failure_scopes_follow_the_taxonomy() {
    assert_eq!(failure_scope(FailureKind::ConfigUnreadable), FailureScope::AbortRun);
    assert_eq!(failure_scope(FailureKind::OpenNotARepo), FailureScope::AbortRun);
    assert_eq!(failure_scope(FailureKind::InternalInvariant), FailureScope::AbortRun);
    assert_eq!(failure_scope(FailureKind::CloneFailed), FailureScope::SkipRepo);
    assert_eq!(failure_scope(FailureKind::InitFailed), FailureScope::SkipRepo);
    assert_eq!(failure_scope(FailureKind::RemoteOpFailed), FailureScope::SkipRemote);
    assert_eq!(failure_scope(FailureKind::RemoteNotText), FailureScope::SkipRemote);
    assert_eq!(failure_scope(FailureKind::DirUnreadable), FailureScope::SkipSubtree);
    assert_eq!(failure_scope(FailureKind::WorktreeUnsafe), FailureScope::SkipWorktree);
    assert_eq!(failure_scope(FailureKind::StashPopFailed), FailureScope::FailOperation);
}

#[test]
fn existing_repo_is_opened_not_cloned() {
    let repo = repo_with("r", vec![declared("origin", "u")]);
    assert_eq!(plan_repo_bootstrap(&repo, true), Ok(BootstrapAction::OpenExisting));
    let no_remotes = Repo { name: "n".to_string(), remotes: None };
    assert_eq!(plan_repo_bootstrap(&no_remotes, false), Ok(BootstrapAction::InitNew));
}
