use grm::config::{Remote, RemoteType};
use grm::remotediff::{diff_remotes, ObservedRemote, RemoteAction};

fn declared(name: &str, url: &str) -> Remote {
    Remote { name: name.to_string(), url: url.to_string(), remote_type: RemoteType::Https }
}

fn observed(name: &str, url: &str) -> ObservedRemote {
    ObservedRemote { name: name.to_string(), url: Some(url.to_string()) }
}

/// Replays the computed actions over an association list, the way the
/// backend would apply them to a repository's remote set.
fn replay(initial: &[(&str, &str)], actions: &[RemoteAction]) -> Vec<(String, String)> {
    let mut state: Vec<(String, String)> =
        initial.iter().map(|(n, u)| (n.to_string(), u.to_string())).collect();
    for a in actions {
        match a {
            RemoteAction::Create { name, url } => state.push((name.clone(), url.clone())),
            RemoteAction::SetUrl { name, url } => {
                for e in state.iter_mut() {
                    if &e.0 == name {
                        e.1 = url.clone();
                    }
                }
            }
            RemoteAction::Delete { name } => state.retain(|e| &e.0 != name),
        }
    }
    state.sort();
    state
}

#[test]
fn diff_reaches_declared_state() {
    let ds = vec![declared("a", "urlA2"), declared("c", "urlC")];
    let os = vec![observed("a", "urlA"), observed("b", "urlB")];
    let (actions, unreadable) = diff_remotes(&ds, &os);
    assert_eq!(
        actions,
        vec![
            RemoteAction::SetUrl { name: "a".to_string(), url: "urlA2".to_string() },
            RemoteAction::Create { name: "c".to_string(), url: "urlC".to_string() },
            RemoteAction::Delete { name: "b".to_string() },
        ]
    );
    assert!(unreadable.is_empty());
    let after = replay(&[("a", "urlA"), ("b", "urlB")], &actions);
    assert_eq!(
        after,
        vec![("a".to_string(), "urlA2".to_string()), ("c".to_string(), "urlC".to_string())]
    );
}

#[test]
fn diff_on_matching_state_is_empty() {
    let ds = vec![declared("origin", "u1"), declared("mirror", "u2")];
    let os = vec![observed("origin", "u1"), observed("mirror", "u2")];
    let (actions, unreadable) = diff_remotes(&ds, &os);
    assert!(actions.is_empty());
    assert!(unreadable.is_empty());
}

#[test]
fn diff_twice_performs_nothing_the_second_time() {
    let ds = vec![declared("a", "u1"), declared("b", "u2")];
    let os = vec![observed("b", "old"), observed("stale", "x")];
    let (actions, _) = diff_remotes(&ds, &os);
    let after = replay(&[("b", "old"), ("stale", "x")], &actions);
    let os2: Vec<ObservedRemote> = after
        .iter()
        .map(|(n, u)| ObservedRemote { name: n.clone(), url: Some(u.clone()) })
        .collect();
    let (actions2, unreadable2) = diff_remotes(&ds, &os2);
    assert!(actions2.is_empty());
    assert!(unreadable2.is_empty());
}

#[test]
fn unreadable_url_is_reported_and_skipped() {
    let ds = vec![declared("a", "u1")];
    let os = vec![
        ObservedRemote { name: "a".to_string(), url: None },
        ObservedRemote { name: "b".to_string(), url: None },
    ];
    let (actions, unreadable) = diff_remotes(&ds, &os);
    assert_eq!(actions, vec![RemoteAction::Delete { name: "b".to_string() }]);
    assert_eq!(unreadable, vec!["a".to_string()]);
}

#[test]
fn creates_and_updates_precede_deletes() {
    let ds = vec![declared("new1", "u1"), declared("new2", "u2")];
    let os = vec![observed("gone1", "x"), observed("gone2", "y")];
    let (actions, _) = diff_remotes(&ds, &os);
    let first_delete =
        actions.iter().position(|a| matches!(a, RemoteAction::Delete { .. })).unwrap();
    for (i, a) in actions.iter().enumerate() {
        if i >= first_delete {
            assert!(matches!(a, RemoteAction::Delete { .. }));
        } else {
            assert!(!matches!(a, RemoteAction::Delete { .. }));
        }
    }
    assert_eq!(actions.len(), 4);
}
