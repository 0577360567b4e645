//! The command surface: the data the commands carry and a parser from plain
//! argument tokens to them. Each command word is matched exactly; options
//! are looked up among the remaining tokens by their first occurrence, and
//! tokens that name no known option are ignored.

use vstd::prelude::*;
use vstd::string::StringExecFns;
use crate::strutil::str_eq;

verus! {

/// A parsed invocation: the one subcommand it selects.
#[derive(Debug)]
pub struct Opts {
    pub subcmd: SubCommand,
}

/// The two families of commands.
#[derive(Debug)]
pub enum SubCommand {
    Repos(Repos),
    Worktree(Worktree),
}

/// Repository management.
#[derive(Debug)]
pub struct Repos {
    pub action: ReposAction,
}

/// What to do with the configured repositories.
#[derive(Debug)]
pub enum ReposAction {
    /// Synchronize the repositories to the configured values.
    Sync(Sync),
    /// Generate a repository configuration from an existing file tree.
    Find(Find),
    /// Show status of configured repositories.
    Status(OptionalConfig),
}

/// Arguments of the synchronize command.
#[derive(Debug, PartialEq, Eq)]
pub struct Sync {
    pub config: String,
}

/// An optional path to the configuration file.
#[derive(Debug, PartialEq, Eq)]
pub struct OptionalConfig {
    pub config: Option<String>,
}

/// The format a generated configuration is written in.
#[derive(Clone, Copy, PartialEq, Eq, Debug, Structural)]
pub enum ConfigFormat {
    Yaml,
    Toml,
}

/// Arguments of the configuration-bootstrap command.
#[derive(Debug, PartialEq, Eq)]
pub struct Find {
    pub path: String,
    pub format: ConfigFormat,
}

/// Worktree management.
#[derive(Debug)]
pub struct Worktree {
    pub action: WorktreeAction,
}

/// What to do with the worktrees of the enclosing repository.
#[derive(Debug)]
pub enum WorktreeAction {
    Add(WorktreeAddArgs),
    Delete(WorktreeDeleteArgs),
    Status(WorktreeStatusArgs),
    Convert(WorktreeConvertArgs),
    Clean(WorktreeCleanArgs),
    Fetch(WorktreeFetchArgs),
    Pull(WorktreePullArgs),
    Rebase(WorktreeRebaseArgs),
}

/// Arguments of the worktree add command.
#[derive(Debug, PartialEq, Eq)]
pub struct WorktreeAddArgs {
    pub name: String,
    pub track: Option<String>,
    pub no_track: bool,
}

/// Arguments of the worktree delete command.
#[derive(Debug, PartialEq, Eq)]
pub struct WorktreeDeleteArgs {
    pub name: String,
    pub force: bool,
}

/// The worktree status command takes no arguments.
#[derive(Debug)]
pub struct WorktreeStatusArgs {}

/// The worktree convert command takes no arguments.
#[derive(Debug)]
pub struct WorktreeConvertArgs {}

/// The worktree clean command takes no arguments.
#[derive(Debug)]
pub struct WorktreeCleanArgs {}

/// The worktree fetch command takes no arguments.
#[derive(Debug)]
pub struct WorktreeFetchArgs {}

/// Arguments of the worktree pull command.
#[derive(Clone, Copy, PartialEq, Eq, Debug, Structural)]
pub struct WorktreePullArgs {
    pub rebase: bool,
    pub stash: bool,
}

/// Arguments of the worktree rebase command.
#[derive(Clone, Copy, PartialEq, Eq, Debug, Structural)]
pub struct WorktreeRebaseArgs {
    pub pull: bool,
    pub rebase: bool,
    pub stash: bool,
}

/// Why an invocation could not be parsed.
#[derive(Clone, Copy, PartialEq, Eq, Debug, Structural)]
pub enum ParseError {
    /// No command word, where one was required.
    MissingCommand,
    /// A word that names no command.
    UnknownCommand,
    /// A required positional argument is absent.
    MissingArgument,
    /// A format that is neither of the known ones.
    UnknownFormat,
}

/// Whether `tok` occurs among the tokens.
pub open spec fn tok_has(rest: Seq<Seq<char>>, tok: Seq<char>) -> bool
    decreases rest.len(),
{
    if rest.len() == 0 {
        false
    } else if rest.first() == tok {
        true
    } else {
        tok_has(rest.drop_first(), tok)
    }
}

/// The token following the first occurrence of `tok`, if both exist.
pub open spec fn tok_value(rest: Seq<Seq<char>>, tok: Seq<char>) -> Option<Seq<char>>
    decreases rest.len(),
{
    if rest.len() == 0 {
        None
    } else if rest.first() == tok {
        if rest.len() >= 2 {
            Some(rest[1])
        } else {
            None
        }
    } else {
        tok_value(rest.drop_first(), tok)
    }
}

/// Whether the flag occurs among the tokens from position `from` on.
fn has_flag(args: &Vec<String>, from: usize, flag: &str) -> (r: bool)
    requires
        from <= args@.len(),
    ensures
        r == tok_has(args.deep_view().skip(from as int), flag@),
{
    let ghost av = args.deep_view();
    let mut i: usize = from;
    while i < args.len()
        invariant
            from <= i <= args@.len(),
            av == args.deep_view(),
            tok_has(av.skip(from as int), flag@) == tok_has(av.skip(i as int), flag@),
        decreases args.len() - i,
    {
        proof {
            assert(av.skip(i as int).first() == av[i as int]);
            assert(av.skip(i as int).drop_first() =~= av.skip(i + 1));
        }
        if str_eq(args[i].as_str(), flag) {
            return true;
        }
        i += 1;
    }
    proof {
        assert(av.skip(args@.len() as int).len() == 0);
    }
    false
}

/// The value of the flag among the tokens from position `from` on, as
/// [`tok_value`] finds it.
fn flag_value(args: &Vec<String>, from: usize, flag: &str) -> (r: Option<String>)
    requires
        from <= args@.len(),
    ensures
        r.deep_view() == tok_value(args.deep_view().skip(from as int), flag@),
{
    let ghost av = args.deep_view();
    let mut i: usize = from;
    while i < args.len()
        invariant
            from <= i <= args@.len(),
            av == args.deep_view(),
            tok_value(av.skip(from as int), flag@) == tok_value(av.skip(i as int), flag@),
        decreases args.len() - i,
    {
        proof {
            assert(av.skip(i as int).first() == av[i as int]);
            assert(av.skip(i as int).drop_first() =~= av.skip(i + 1));
        }
        if str_eq(args[i].as_str(), flag) {
            if i + 1 < args.len() {
                proof {
                    assert(av.skip(i as int)[1] == av[i + 1]);
                }
                return Some(args[i + 1].clone());
            } else {
                return None;
            }
        }
        i += 1;
    }
    proof {
        assert(av.skip(args@.len() as int).len() == 0);
    }
    None
}

/// The value of `long`, or failing that of `short`, or the default.
pub open spec fn spec_config_path(rest: Seq<Seq<char>>) -> Seq<char> {
    match tok_value(rest, "--config"@) {
        Some(c) => c,
        None => match tok_value(rest, "-c"@) {
            Some(c) => c,
            None => "./config.toml"@,
        },
    }
}

/// The optional configuration path, long form preferred.
pub open spec fn spec_opt_config_path(rest: Seq<Seq<char>>) -> Option<Seq<char>> {
    match tok_value(rest, "--config"@) {
        Some(c) => Some(c),
        None => tok_value(rest, "-c"@),
    }
}

/// The requested output format: the known words, absent meaning the
/// default, anything else an error.
pub open spec fn spec_format(rest: Seq<Seq<char>>) -> Result<ConfigFormat, ParseError> {
    match (match tok_value(rest, "--format"@) {
        Some(f) => Some(f),
        None => tok_value(rest, "-f"@),
    }) {
        None => Ok(ConfigFormat::Toml),
        Some(f) => if f == "toml"@ {
            Ok(ConfigFormat::Toml)
        } else if f == "yaml"@ {
            Ok(ConfigFormat::Yaml)
        } else {
            Err(ParseError::UnknownFormat)
        },
    }
}

/// Parses plain argument tokens — the words after the program name — into
/// an invocation. The command words come first: `repos` with `sync` (or its
/// alias `run`), `find` or `status`, and `worktree` (or its alias `wt`)
/// with `add`, `delete`, `status`, `convert`, `clean`, `fetch`, `pull` or
/// `rebase`. Options are found by name among the tokens that follow;
/// unrecognized tokens are ignored.
pub fn parse(args: &Vec<String>) -> (r: Result<Opts, ParseError>)
    ensures
        ({
            let a = args.deep_view();
            if a.len() == 0 {
                r is Err && r->Err_0 == ParseError::MissingCommand
            } else if a[0] == "repos"@ {
                spec_parse_repos_matches(a, r)
            } else if a[0] == "worktree"@ || a[0] == "wt"@ {
                spec_parse_worktree_matches(a, r)
            } else {
                r is Err && r->Err_0 == ParseError::UnknownCommand
            }
        }),
{
    if args.len() == 0 {
        return Err(ParseError::MissingCommand);
    }
    if str_eq(args[0].as_str(), "repos") {
        parse_repos(args)
    } else if str_eq(args[0].as_str(), "worktree") || str_eq(args[0].as_str(), "wt") {
        parse_worktree(args)
    } else {
        Err(ParseError::UnknownCommand)
    }
}

/// What parsing a repository command must yield, given the whole token
/// sequence: the action word stands at position 1, its options follow it.
pub open spec fn spec_parse_repos_matches(a: Seq<Seq<char>>, r: Result<Opts, ParseError>) -> bool {
    if a.len() < 2 {
        r is Err && r->Err_0 == ParseError::MissingCommand
    } else if a[1] == "sync"@ || a[1] == "run"@ {
        r matches Ok(o) && o.subcmd matches SubCommand::Repos(rp) && rp.action matches
            ReposAction::Sync(s) && s.config@ == spec_config_path(a.skip(2))
    } else if a[1] == "find"@ {
        if a.len() < 3 {
            r is Err && r->Err_0 == ParseError::MissingArgument
        } else {
            match spec_format(a.skip(3)) {
                Err(e) => r is Err && r->Err_0 == e,
                Ok(fmt) => r matches Ok(o) && o.subcmd matches SubCommand::Repos(rp)
                    && rp.action matches ReposAction::Find(f) && f.path@ == a[2] && f.format == fmt,
            }
        }
    } else if a[1] == "status"@ {
        r matches Ok(o) && o.subcmd matches SubCommand::Repos(rp) && rp.action matches
            ReposAction::Status(c) && c.config.deep_view() == spec_opt_config_path(a.skip(2))
    } else {
        r is Err && r->Err_0 == ParseError::UnknownCommand
    }
}

fn parse_repos(args: &Vec<String>) -> (r: Result<Opts, ParseError>)
    requires
        args.deep_view().len() >= 1,
    ensures
        spec_parse_repos_matches(args.deep_view(), r),
{
    if args.len() < 2 {
        return Err(ParseError::MissingCommand);
    }
    if str_eq(args[1].as_str(), "sync") || str_eq(args[1].as_str(), "run") {
        let config = match flag_value(args, 2, "--config") {
            Some(c) => c,
            None => match flag_value(args, 2, "-c") {
                Some(c) => c,
                None => String::from_str("./config.toml"),
            },
        };
        Ok(Opts { subcmd: SubCommand::Repos(Repos { action: ReposAction::Sync(Sync { config }) }) })
    } else if str_eq(args[1].as_str(), "find") {
        if args.len() < 3 {
            return Err(ParseError::MissingArgument);
        }
        let fmt_tok = match flag_value(args, 3, "--format") {
            Some(f) => Some(f),
            None => flag_value(args, 3, "-f"),
        };
        let format = match fmt_tok {
            None => ConfigFormat::Toml,
            Some(f) => {
                if str_eq(f.as_str(), "toml") {
                    ConfigFormat::Toml
                } else if str_eq(f.as_str(), "yaml") {
                    ConfigFormat::Yaml
                } else {
                    return Err(ParseError::UnknownFormat);
                }
            },
        };
        let path = args[2].clone();
        Ok(
            Opts {
                subcmd: SubCommand::Repos(
                    Repos { action: ReposAction::Find(Find { path, format }) },
                ),
            },
        )
    } else if str_eq(args[1].as_str(), "status") {
        let config = match flag_value(args, 2, "--config") {
            Some(c) => Some(c),
            None => flag_value(args, 2, "-c"),
        };
        Ok(
            Opts {
                subcmd: SubCommand::Repos(
                    Repos { action: ReposAction::Status(OptionalConfig { config }) },
                ),
            },
        )
    } else {
        Err(ParseError::UnknownCommand)
    }
}

/// What parsing a worktree command must yield, given the whole token
/// sequence: the action word stands at position 1, its options follow it.
pub open spec fn spec_parse_worktree_matches(
    a: Seq<Seq<char>>,
    r: Result<Opts, ParseError>,
) -> bool {
    if a.len() < 2 {
        r is Err && r->Err_0 == ParseError::MissingCommand
    } else if a[1] == "add"@ {
        if a.len() < 3 {
            r is Err && r->Err_0 == ParseError::MissingArgument
        } else {
            r matches Ok(o) && o.subcmd matches SubCommand::Worktree(w) && w.action matches
                WorktreeAction::Add(x) && x.name@ == a[2] && x.track.deep_view() == (match
                tok_value(a.skip(3), "--track"@) {
                Some(t) => Some(t),
                None => tok_value(a.skip(3), "-t"@),
            }) && x.no_track == tok_has(a.skip(3), "--no-track"@)
        }
    } else if a[1] == "delete"@ {
        if a.len() < 3 {
            r is Err && r->Err_0 == ParseError::MissingArgument
        } else {
            r matches Ok(o) && o.subcmd matches SubCommand::Worktree(w) && w.action matches
                WorktreeAction::Delete(x) && x.name@ == a[2] && x.force == tok_has(
                a.skip(3),
                "--force"@,
            )
        }
    } else if a[1] == "status"@ {
        r matches Ok(o) && o.subcmd matches SubCommand::Worktree(w) && w.action matches
            WorktreeAction::Status(_)
    } else if a[1] == "convert"@ {
        r matches Ok(o) && o.subcmd matches SubCommand::Worktree(w) && w.action matches
            WorktreeAction::Convert(_)
    } else if a[1] == "clean"@ {
        r matches Ok(o) && o.subcmd matches SubCommand::Worktree(w) && w.action matches
            WorktreeAction::Clean(_)
    } else if a[1] == "fetch"@ {
        r matches Ok(o) && o.subcmd matches SubCommand::Worktree(w) && w.action matches
            WorktreeAction::Fetch(_)
    } else if a[1] == "pull"@ {
        r matches Ok(o) && o.subcmd matches SubCommand::Worktree(w) && w.action matches
            WorktreeAction::Pull(x) && x.rebase == tok_has(a.skip(2), "--rebase"@) && x.stash
            == tok_has(a.skip(2), "--stash"@)
    } else if a[1] == "rebase"@ {
        r matches Ok(o) && o.subcmd matches SubCommand::Worktree(w) && w.action matches
            WorktreeAction::Rebase(x) && x.pull == tok_has(a.skip(2), "--pull"@) && x.rebase
            == tok_has(a.skip(2), "--rebase"@) && x.stash == tok_has(a.skip(2), "--stash"@)
    } else {
        r is Err && r->Err_0 == ParseError::UnknownCommand
    }
}

fn parse_worktree(args: &Vec<String>) -> (r: Result<Opts, ParseError>)
    requires
        args.deep_view().len() >= 1,
    ensures
        spec_parse_worktree_matches(args.deep_view(), r),
{
    if args.len() < 2 {
        return Err(ParseError::MissingCommand);
    }
    if str_eq(args[1].as_str(), "add") {
        if args.len() < 3 {
            return Err(ParseError::MissingArgument);
        }
        let name = args[2].clone();
        let track = match flag_value(args, 3, "--track") {
            Some(t) => Some(t),
            None => flag_value(args, 3, "-t"),
        };
        let no_track = has_flag(args, 3, "--no-track");
        Ok(
            Opts {
                subcmd: SubCommand::Worktree(
                    Worktree {
                        action: WorktreeAction::Add(WorktreeAddArgs { name, track, no_track }),
                    },
                ),
            },
        )
    } else if str_eq(args[1].as_str(), "delete") {
        if args.len() < 3 {
            return Err(ParseError::MissingArgument);
        }
        let name = args[2].clone();
        let force = has_flag(args, 3, "--force");
        Ok(
            Opts {
                subcmd: SubCommand::Worktree(
                    Worktree { action: WorktreeAction::Delete(WorktreeDeleteArgs { name, force }) },
                ),
            },
        )
    } else if str_eq(args[1].as_str(), "status") {
        Ok(
            Opts {
                subcmd: SubCommand::Worktree(
                    Worktree { action: WorktreeAction::Status(WorktreeStatusArgs {}) },
                ),
            },
        )
    } else if str_eq(args[1].as_str(), "convert") {
        Ok(
            Opts {
                subcmd: SubCommand::Worktree(
                    Worktree { action: WorktreeAction::Convert(WorktreeConvertArgs {}) },
                ),
            },
        )
    } else if str_eq(args[1].as_str(), "clean") {
        Ok(
            Opts {
                subcmd: SubCommand::Worktree(
                    Worktree { action: WorktreeAction::Clean(WorktreeCleanArgs {}) },
                ),
            },
        )
    } else if str_eq(args[1].as_str(), "fetch") {
        Ok(
            Opts {
                subcmd: SubCommand::Worktree(
                    Worktree { action: WorktreeAction::Fetch(WorktreeFetchArgs {}) },
                ),
            },
        )
    } else if str_eq(args[1].as_str(), "pull") {
        let rebase = has_flag(args, 2, "--rebase");
        let stash = has_flag(args, 2, "--stash");
        Ok(
            Opts {
                subcmd: SubCommand::Worktree(
                    Worktree { action: WorktreeAction::Pull(WorktreePullArgs { rebase, stash }) },
                ),
            },
        )
    } else if str_eq(args[1].as_str(), "rebase") {
        let pull = has_flag(args, 2, "--pull");
        let rebase = has_flag(args, 2, "--rebase");
        let stash = has_flag(args, 2, "--stash");
        Ok(
            Opts {
                subcmd: SubCommand::Worktree(
                    Worktree {
                        action: WorktreeAction::Rebase(WorktreeRebaseArgs { pull, rebase, stash }),
                    },
                ),
            },
        )
    } else {
        Err(ParseError::UnknownCommand)
    }
}

} // verus!
