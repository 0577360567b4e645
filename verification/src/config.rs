//! The declared configuration: trees of repositories, each with an optional
//! list of remotes, plus the closed classification of remote URL schemes.

use vstd::prelude::*;
use crate::strutil::is_prefix_of;
use crate::strutil::starts_with;

verus! {

/// Closed classification of a remote URL's hosting scheme.
#[derive(Clone, Copy, PartialEq, Eq, Debug, Structural)]
pub enum RemoteType {
    Ssh,
    Https,
    File,
}

/// A remote of a repository: a name and the URL it points at.
#[derive(Debug, PartialEq, Eq)]
pub struct Remote {
    pub name: String,
    pub url: String,
    pub remote_type: RemoteType,
}

/// Mathematical image of a [`Remote`]: its strings as character sequences.
pub struct RemoteV {
    pub name: Seq<char>,
    pub url: Seq<char>,
    pub remote_type: RemoteType,
}

impl View for Remote {
    type V = RemoteV;

    open spec fn view(&self) -> RemoteV {
        RemoteV { name: self.name@, url: self.url@, remote_type: self.remote_type }
    }
}

impl DeepView for Remote {
    type V = RemoteV;

    open spec fn deep_view(&self) -> RemoteV {
        self@
    }
}

impl Clone for Remote {
    fn clone(&self) -> (r: Self)
        ensures
            r@ == self@,
    {
        Remote {
            name: self.name.clone(),
            url: self.url.clone(),
            remote_type: self.remote_type,
        }
    }
}

/// One declared repository: its name (a relative path under the tree root)
/// and, optionally, the remotes it should have. An absent remote list means
/// "initialize as an empty repository if missing; do not manage remotes".
#[derive(Debug, PartialEq, Eq)]
pub struct Repo {
    pub name: String,
    pub remotes: Option<Vec<Remote>>,
}

/// Mathematical image of a [`Repo`].
pub struct RepoV {
    pub name: Seq<char>,
    pub remotes: Option<Seq<RemoteV>>,
}

impl DeepView for Repo {
    type V = RepoV;

    open spec fn deep_view(&self) -> RepoV {
        RepoV { name: self.name@, remotes: self.remotes.deep_view() }
    }
}

/// One configured root directory together with its declared repositories.
#[derive(Debug, PartialEq, Eq)]
pub struct Tree {
    pub root: String,
    pub repos: Option<Vec<Repo>>,
}

/// Mathematical image of a [`Tree`].
pub struct TreeV {
    pub root: Seq<char>,
    pub repos: Option<Seq<RepoV>>,
}

impl DeepView for Tree {
    type V = TreeV;

    open spec fn deep_view(&self) -> TreeV {
        TreeV { root: self.root@, repos: self.repos.deep_view() }
    }
}

/// A whole configuration document: a sequence of independent trees.
#[derive(Debug, PartialEq, Eq)]
pub struct Config {
    pub trees: Vec<Tree>,
}

impl DeepView for Config {
    type V = Seq<TreeV>;

    open spec fn deep_view(&self) -> Seq<TreeV> {
        self.trees.deep_view()
    }
}

/// The hosting scheme a URL's text pins down, if any: `ssh://`, then
/// `https://`, then `file://` prefixes are tried in that order.
pub open spec fn spec_remote_type_of(url: Seq<char>) -> Option<RemoteType> {
    if is_prefix_of("ssh://"@, url) {
        Some(RemoteType::Ssh)
    } else if is_prefix_of("https://"@, url) {
        Some(RemoteType::Https)
    } else if is_prefix_of("file://"@, url) {
        Some(RemoteType::File)
    } else {
        None
    }
}

/// Classifies a remote URL by its scheme prefix, as
/// [`spec_remote_type_of`] states; a URL matching no known scheme cannot be
/// classified, which callers treat as an error rather than a default.
pub fn detect_remote_type(url: &str) -> (r: Option<RemoteType>)
    ensures
        r == spec_remote_type_of(url@),
{
    if starts_with(url, "ssh://") {
        Some(RemoteType::Ssh)
    } else if starts_with(url, "https://") {
        Some(RemoteType::Https)
    } else if starts_with(url, "file://") {
        Some(RemoteType::File)
    } else {
        None
    }
}

} // verus!
