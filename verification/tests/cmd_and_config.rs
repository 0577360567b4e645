use grm::cmd::{
    parse, ConfigFormat, ParseError, ReposAction, SubCommand, WorktreeAction,
};
use grm::config::{detect_remote_type, RemoteType};
use grm::strutil::{starts_with, str_eq, strip_prefix};

fn args(words: &[&str]) -> Vec<String> {
    words.iter().map(|w| w.to_string()).collect()
}

#[test]
fn remote_types_come_from_the_url_scheme() {
    assert_eq!(detect_remote_type("ssh://git@host/repo.git"), Some(RemoteType::Ssh));
    assert_eq!(detect_remote_type("https://host/repo.git"), Some(RemoteType::Https));
    assert_eq!(detect_remote_type("file:///srv/repo"), Some(RemoteType::File));
    assert_eq!(detect_remote_type("git@host:repo.git"), None);
    assert_eq!(detect_remote_type(""), None);
}

#[test]
fn string_helpers() {
    assert!(str_eq("abc", "abc"));
    assert!(!str_eq("abc", "abd"));
    assert!(!str_eq("abc", "ab"));
    assert!(starts_with("hello", "he"));
    assert!(starts_with("hello", ""));
    assert!(!starts_with("he", "hello"));
    assert_eq!(strip_prefix("hello", "he"), Some("llo".to_string()));
    assert_eq!(strip_prefix("hello", "lo"), None);
}

#[test]
fn empty_and_unknown_commands_are_errors() {
    assert_eq!(parse(&args(&[])).unwrap_err(), ParseError::MissingCommand);
    assert_eq!(parse(&args(&["frobnicate"])).unwrap_err(), ParseError::UnknownCommand);
    assert_eq!(parse(&args(&["repos"])).unwrap_err(), ParseError::MissingCommand);
    assert_eq!(parse(&args(&["repos", "dance"])).unwrap_err(), ParseError::UnknownCommand);
    assert_eq!(parse(&args(&["wt"])).unwrap_err(), ParseError::MissingCommand);
}

#[test]
fn sync_takes_a_config_path_with_a_default() {
    let o = parse(&args(&["repos", "sync"])).unwrap();
    match o.subcmd {
        SubCommand::Repos(r) => match r.action {
            ReposAction::Sync(s) => assert_eq!(s.config, "./config.toml".to_string()),
            other => panic!("unexpected action: {:?}", other),
        },
        other => panic!("unexpected subcommand: {:?}", other),
    }
    let o = parse(&args(&["repos", "run", "--config", "fleet.toml"])).unwrap();
    match o.subcmd {
        SubCommand::Repos(r) => match r.action {
            ReposAction::Sync(s) => assert_eq!(s.config, "fleet.toml".to_string()),
            other => panic!("unexpected action: {:?}", other),
        },
        other => panic!("unexpected subcommand: {:?}", other),
    }
    // A valued option with nothing after it yields no value: the default
    // stands.
    let o = parse(&args(&["repos", "sync", "--config"])).unwrap();
    match o.subcmd {
        SubCommand::Repos(r) => match r.action {
            ReposAction::Sync(s) => assert_eq!(s.config, "./config.toml".to_string()),
            other => panic!("unexpected action: {:?}", other),
        },
        other => panic!("unexpected subcommand: {:?}", other),
    }
}

#[test]
fn find_takes_a_path_and_a_format() {
    assert_eq!(parse(&args(&["repos", "find"])).unwrap_err(), ParseError::MissingArgument);
    let o = parse(&args(&["repos", "find", "/srv/dev"])).unwrap();
    match o.subcmd {
        SubCommand::Repos(r) => match r.action {
            ReposAction::Find(f) => {
                assert_eq!(f.path, "/srv/dev".to_string());
                assert_eq!(f.format, ConfigFormat::Toml);
            }
            other => panic!("unexpected action: {:?}", other),
        },
        other => panic!("unexpected subcommand: {:?}", other),
    }
    let o = parse(&args(&["repos", "find", "/srv/dev", "--format", "yaml"])).unwrap();
    match o.subcmd {
        SubCommand::Repos(r) => match r.action {
            ReposAction::Find(f) => assert_eq!(f.format, ConfigFormat::Yaml),
            other => panic!("unexpected action: {:?}", other),
        },
        other => panic!("unexpected subcommand: {:?}", other),
    }
    assert_eq!(
        parse(&args(&["repos", "find", "/srv/dev", "-f", "ini"])).unwrap_err(),
        ParseError::UnknownFormat
    );
}

#[test]
fn status_config_is_optional() {
    let o = parse(&args(&["repos", "status"])).unwrap();
    match o.subcmd {
        SubCommand::Repos(r) => match r.action {
            ReposAction::Status(c) => assert_eq!(c.config, None),
            other => panic!("unexpected action: {:?}", other),
        },
        other => panic!("unexpected subcommand: {:?}", other),
    }
    let o = parse(&args(&["repos", "status", "-c", "x.toml"])).unwrap();
    match o.subcmd {
        SubCommand::Repos(r) => match r.action {
            ReposAction::Status(c) => assert_eq!(c.config, Some("x.toml".to_string())),
            other => panic!("unexpected action: {:?}", other),
        },
        other => panic!("unexpected subcommand: {:?}", other),
    }
}

#[test]
fn worktree_add_arguments() {
    assert_eq!(parse(&args(&["wt", "add"])).unwrap_err(), ParseError::MissingArgument);
    let o = parse(&args(&["worktree", "add", "feat", "--track", "main"])).unwrap();
    match o.subcmd {
        SubCommand::Worktree(w) => match w.action {
            WorktreeAction::Add(a) => {
                assert_eq!(a.name, "feat".to_string());
                assert_eq!(a.track, Some("main".to_string()));
                assert!(!a.no_track);
            }
            other => panic!("unexpected action: {:?}", other),
        },
        other => panic!("unexpected subcommand: {:?}", other),
    }
    let o = parse(&args(&["wt", "add", "feat", "--no-track"])).unwrap();
    match o.subcmd {
        SubCommand::Worktree(w) => match w.action {
            WorktreeAction::Add(a) => {
                assert_eq!(a.track, None);
                assert!(a.no_track);
            }
            other => panic!("unexpected action: {:?}", other),
        },
        other => panic!("unexpected subcommand: {:?}", other),
    }
}

#[test]
fn worktree_delete_and_batches() {
    let o = parse(&args(&["wt", "delete", "feat", "--force"])).unwrap();
    match o.subcmd {
        SubCommand::Worktree(w) => match w.action {
            WorktreeAction::Delete(d) => {
                assert_eq!(d.name, "feat".to_string());
                assert!(d.force);
            }
            other => panic!("unexpected action: {:?}", other),
        },
        other => panic!("unexpected subcommand: {:?}", other),
    }
    let o = parse(&args(&["wt", "clean"])).unwrap();
    assert!(matches!(
        o.subcmd,
        SubCommand::Worktree(w) if matches!(w.action, WorktreeAction::Clean(_))
    ));
    let o = parse(&args(&["wt", "fetch"])).unwrap();
    assert!(matches!(
        o.subcmd,
        SubCommand::Worktree(w) if matches!(w.action, WorktreeAction::Fetch(_))
    ));
    let o = parse(&args(&["wt", "status"])).unwrap();
    assert!(matches!(
        o.subcmd,
        SubCommand::Worktree(w) if matches!(w.action, WorktreeAction::Status(_))
    ));
    let o = parse(&args(&["wt", "convert"])).unwrap();
    assert!(matches!(
        o.subcmd,
        SubCommand::Worktree(w) if matches!(w.action, WorktreeAction::Convert(_))
    ));
}

#[test]
fn worktree_pull_and_rebase_flags() {
    let o = parse(&args(&["worktree", "pull", "--rebase", "--stash"])).unwrap();
    match o.subcmd {
        SubCommand::Worktree(w) => match w.action {
            WorktreeAction::Pull(p) => {
                assert!(p.rebase);
                assert!(p.stash);
            }
            other => panic!("unexpected action: {:?}", other),
        },
        other => panic!("unexpected subcommand: {:?}", other),
    }
    let o = parse(&args(&["worktree", "rebase", "--pull"])).unwrap();
    match o.subcmd {
        SubCommand::Worktree(w) => match w.action {
            WorktreeAction::Rebase(r) => {
                assert!(r.pull);
                assert!(!r.rebase);
                assert!(!r.stash);
            }
            other => panic!("unexpected action: {:?}", other),
        },
        other => panic!("unexpected subcommand: {:?}", other),
    }
}
