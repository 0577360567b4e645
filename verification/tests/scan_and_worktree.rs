use grm::config::{Remote, RemoteType, Repo, Tree};
use grm::remotediff::ObservedRemote;
use grm::scan::{
    classify_remotes, find_in_tree, find_unmanaged, relative_name, scan_next, scan_start,
    scan_step, DirObservation, DiscoveryError,
};
use grm::worktree::{
    decide_delete, is_safe, plan_add, plan_clean, plan_convert, plan_pull, plan_rebase,
    resolve_stash, AddError, ConvertAction, DeleteDecision, RepoLayout, StashResolution, WtStep,
    WorktreeInfo,
};

fn bare_repo(name: &str) -> Repo {
    Repo { name: name.to_string(), remotes: None }
}

fn wt(name: &str, dirty: bool, unpushed: bool) -> WorktreeInfo {
    WorktreeInfo {
        name: name.to_string(),
        path: format!("/repo/{}", name),
        tracked_branch: None,
        dirty,
        unpushed,
    }
}

#[test]
fn undeclared_repo_is_reported_declared_one_never() {
    let declared = vec![bare_repo("X")];
    let discovered = vec!["X".to_string(), "Y".to_string()];
    let unmanaged = find_unmanaged(&declared, &discovered);
    assert_eq!(unmanaged, vec!["Y".to_string()]);
}

#[test]
fn relative_names_under_the_root() {
    assert_eq!(
        relative_name(&"/root/sub/repo".to_string(), &"/root".to_string()),
        Some("sub/repo".to_string())
    );
    assert_eq!(relative_name(&"/root".to_string(), &"/root".to_string()), Some("".to_string()));
    assert_eq!(relative_name(&"/elsewhere/x".to_string(), &"/root".to_string()), None);
}

#[test]
fn scan_walks_depth_first_and_skips_unreadable() {
    let mut s = scan_start("/r".to_string());
    let d = scan_next(&mut s).unwrap();
    assert_eq!(d, "/r".to_string());
    scan_step(
        &mut s,
        d,
        DirObservation::Subdirs { dirs: vec!["/r/a".to_string(), "/r/b".to_string()] },
    );
    let d = scan_next(&mut s).unwrap();
    assert_eq!(d, "/r/a".to_string());
    scan_step(&mut s, d, DirObservation::IsRepository);
    let d = scan_next(&mut s).unwrap();
    assert_eq!(d, "/r/b".to_string());
    scan_step(&mut s, d, DirObservation::Unreadable);
    assert_eq!(scan_next(&mut s), None);
    assert_eq!(s.found, vec!["/r/a".to_string()]);
}

#[test]
fn found_repository_is_a_leaf() {
    let mut s = scan_start("/r".to_string());
    let d = scan_next(&mut s).unwrap();
    scan_step(&mut s, d, DirObservation::IsRepository);
    assert_eq!(scan_next(&mut s), None);
    assert_eq!(s.found, vec!["/r".to_string()]);
}

#[test]
fn discovered_remotes_are_classified_or_refused() {
    let observed = vec![
        ObservedRemote { name: "origin".to_string(), url: Some("ssh://host/r".to_string()) },
        ObservedRemote { name: "mirror".to_string(), url: Some("https://host/r".to_string()) },
    ];
    assert_eq!(
        classify_remotes(&observed),
        Ok(vec![
            Remote {
                name: "origin".to_string(),
                url: "ssh://host/r".to_string(),
                remote_type: RemoteType::Ssh,
            },
            Remote {
                name: "mirror".to_string(),
                url: "https://host/r".to_string(),
                remote_type: RemoteType::Https,
            },
        ])
    );
    let unreadable = vec![ObservedRemote { name: "origin".to_string(), url: None }];
    assert_eq!(
        classify_remotes(&unreadable),
        Err(DiscoveryError::UrlUnreadable { name: "origin".to_string() })
    );
    let odd = vec![ObservedRemote {
        name: "origin".to_string(),
        url: Some("git@host:r".to_string()),
    }];
    assert_eq!(
        classify_remotes(&odd),
        Err(DiscoveryError::TypeUnknown {
            name: "origin".to_string(),
            url: "git@host:r".to_string(),
        })
    );
}

#[test]
fn tree_root_is_written_home_relative() {
    let t: Tree = find_in_tree(&"/home/u/dev".to_string(), &"/home/u".to_string(), vec![]);
    assert_eq!(t.root, "~/dev".to_string());
    let t = find_in_tree(&"/home/u".to_string(), &"/home/u".to_string(), vec![]);
    assert_eq!(t.root, "~".to_string());
    let t = find_in_tree(&"/srv/x".to_string(), &"/home/u".to_string(), vec![bare_repo("a")]);
    assert_eq!(t.root, "/srv/x".to_string());
    assert_eq!(t.repos, Some(vec![bare_repo("a")]));
}

#[test]
fn dirty_worktree_is_refused_without_force() {
    let w = wt("feature", true, false);
    assert!(!is_safe(&w));
    assert_eq!(decide_delete(&w, false), DeleteDecision::Refuse);
    assert_eq!(decide_delete(&w, true), DeleteDecision::Remove);
}

#[test]
fn unpushed_worktree_is_refused_without_force() {
    let w = wt("feature", false, true);
    assert_eq!(decide_delete(&w, false), DeleteDecision::Refuse);
    assert_eq!(decide_delete(&w, true), DeleteDecision::Remove);
    let clean = wt("done", false, false);
    assert_eq!(decide_delete(&clean, false), DeleteDecision::Remove);
}

#[test]
fn clean_deletes_safe_and_skips_unsafe() {
    let ws = vec![wt("done", false, false), wt("busy", true, false), wt("ahead", false, true)];
    let (deleted, skipped) = plan_clean(&ws);
    assert_eq!(deleted, vec!["done".to_string()]);
    assert_eq!(skipped, vec!["busy".to_string(), "ahead".to_string()]);
}

#[test]
fn add_refuses_duplicate_names_and_picks_tracking() {
    let existing = vec![wt("main", false, false)];
    assert_eq!(
        plan_add(&existing, &"main".to_string(), &None, false),
        Err(AddError::AlreadyExists)
    );
    let p = plan_add(&existing, &"feat".to_string(), &None, false).unwrap();
    assert_eq!(p.track, Some("feat".to_string()));
    let p = plan_add(&existing, &"feat".to_string(), &Some("develop".to_string()), false).unwrap();
    assert_eq!(p.track, Some("develop".to_string()));
    let p = plan_add(&existing, &"feat".to_string(), &Some("develop".to_string()), true).unwrap();
    assert_eq!(p.track, None);
}

#[test]
fn convert_is_idempotent() {
    assert_eq!(plan_convert(RepoLayout::Plain), ConvertAction::Restructure);
    assert_eq!(plan_convert(RepoLayout::WorktreeEnabled), ConvertAction::AlreadyConverted);
}

#[test]
fn pull_plans_wrap_integration_in_stash_only_when_dirty() {
    assert_eq!(
        plan_pull(false, true, true),
        vec![WtStep::Fetch, WtStep::StashSave, WtStep::Integrate { rebase: false }, WtStep::StashPop]
    );
    assert_eq!(plan_pull(true, true, false), vec![WtStep::Fetch, WtStep::Integrate { rebase: true }]);
    assert_eq!(plan_pull(true, false, true), vec![WtStep::Fetch, WtStep::Integrate { rebase: true }]);
}

#[test]
fn rebase_plan_wraps_both_steps() {
    assert_eq!(
        plan_rebase(true, false, true, true),
        vec![
            WtStep::Fetch,
            WtStep::StashSave,
            WtStep::Integrate { rebase: false },
            WtStep::StashPop,
            WtStep::StashSave,
            WtStep::RebaseOntoDefault,
            WtStep::StashPop,
        ]
    );
    assert_eq!(plan_rebase(false, false, false, true), vec![WtStep::RebaseOntoDefault]);
}

#[test]
fn stash_is_restored_unchanged_after_success() {
    let (ok, res) = resolve_stash(Some("my edits".to_string()), true, true);
    assert!(ok);
    assert_eq!(res, StashResolution::Restored { content: "my edits".to_string() });
}

#[test]
fn stash_is_restored_even_when_the_operation_fails() {
    let (ok, res) = resolve_stash(Some("my edits".to_string()), false, true);
    assert!(!ok);
    assert_eq!(res, StashResolution::Restored { content: "my edits".to_string() });
}

#[test]
fn failed_restore_preserves_the_stash() {
    let (ok, res) = resolve_stash(Some("my edits".to_string()), true, false);
    assert!(!ok);
    assert_eq!(res, StashResolution::Preserved { content: "my edits".to_string() });
}

#[test]
fn clean_tree_holds_no_stash() {
    let (ok, res) = resolve_stash(None, true, false);
    assert!(ok);
    assert_eq!(res, StashResolution::NoneHeld);
}
