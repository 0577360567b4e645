//! Discovery of repositories under a root directory, independent of
//! configuration: an explicit work-list walk in place of unbounded recursion,
//! and the subtraction that turns discovered paths into the unmanaged report.

use vstd::prelude::*;
use vstd::string::StringExecFns;
use crate::config::detect_remote_type;
use crate::config::spec_remote_type_of;
use crate::config::Remote;
use crate::config::RemoteV;
use crate::config::Repo;
use crate::config::RepoV;
use crate::config::Tree;
use crate::remotediff::ObservedRemote;
use crate::remotediff::ObservedRemoteV;
use crate::strutil::is_prefix_of;
use crate::strutil::strip_prefix;

verus! {

/// The scanner's work list and what it has found so far. Directories still
/// to inspect sit in `pending`, most recently added last; discovered
/// repository paths accumulate in `found` in depth-first order.
pub struct ScanState {
    pub pending: Vec<String>,
    pub found: Vec<String>,
}

/// What inspecting one directory showed.
pub enum DirObservation {
    /// The directory carries the repository marker: it is a repository leaf,
    /// and nothing beneath it is inspected further.
    IsRepository,
    /// An ordinary readable directory; its subdirectories, in read order,
    /// symbolic links already excluded.
    Subdirs { dirs: Vec<String> },
    /// The directory could not be read: its subtree is skipped, the scan
    /// continues with siblings.
    Unreadable,
}

/// A scan begins with the root alone pending and nothing found.
pub fn scan_start(root: String) -> (s: ScanState)
    ensures
        s.pending.deep_view() == seq![root@],
        s.found.deep_view() == Seq::<Seq<char>>::empty(),
{
    let mut pending: Vec<String> = Vec::new();
    pending.push(root);
    let s = ScanState { pending, found: Vec::new() };
    proof {
        assert(s.pending.deep_view() =~= seq![s.pending@[0]@]);
        assert(s.found.deep_view() =~= Seq::<Seq<char>>::empty());
    }
    s
}

/// Takes the next directory to inspect off the work list, most recently
/// added first, so that the walk is depth-first.
pub fn scan_next(s: &mut ScanState) -> (r: Option<String>)
    ensures
        final(s).found == old(s).found,
        match r {
            None => old(s).pending@.len() == 0 && final(s).pending@ == old(s).pending@,
            Some(d) => old(s).pending@.len() > 0 && d@ == old(s).pending.deep_view().last()
                && final(s).pending.deep_view() == old(s).pending.deep_view().drop_last(),
        },
{
    let r = s.pending.pop();
    proof {
        if old(s).pending@.len() > 0 {
            assert(s.pending.deep_view() =~= old(s).pending.deep_view().drop_last());
        }
    }
    r
}

/// Records what inspecting `dir` showed: a repository is appended to the
/// findings and never descended into; an ordinary directory has its
/// subdirectories queued in reverse, so the first is inspected next; an
/// unreadable directory changes nothing.
pub fn scan_step(s: &mut ScanState, dir: String, obs: DirObservation)
    ensures
        match obs {
            DirObservation::IsRepository => {
                &&& final(s).found.deep_view() == old(s).found.deep_view().push(dir@)
                &&& final(s).pending == old(s).pending
            },
            DirObservation::Subdirs { dirs } => {
                &&& final(s).found == old(s).found
                &&& final(s).pending.deep_view() == old(s).pending.deep_view()
                    + dirs.deep_view().reverse()
            },
            DirObservation::Unreadable => {
                &&& final(s).found == old(s).found
                &&& final(s).pending == old(s).pending
            },
        },
{
    match obs {
        DirObservation::IsRepository => {
            s.found.push(dir);
            proof {
                assert(s.found.deep_view() =~= old(s).found.deep_view().push(dir@));
            }
        },
        DirObservation::Subdirs { dirs } => {
            let ghost dv = dirs.deep_view();
            let mut k: usize = dirs.len();
            let mut rest = dirs;
            while k > 0
                invariant
                    k == rest@.len(),
                    k <= dv.len(),
                    rest.deep_view() == dv.take(k as int),
                    s.found == old(s).found,
                    s.pending.deep_view() == old(s).pending.deep_view() + dv.skip(
                        k as int,
                    ).reverse(),
                decreases k,
            {
                let d = rest.pop().unwrap();
                k = k - 1;
                proof {
                    assert(rest.deep_view() =~= dv.take(k as int));
                    assert(dv.take(k + 1).last() == dv[k as int]);
                    assert(d@ == dv[k as int]);
                }
                let ghost pend0 = s.pending.deep_view();
                s.pending.push(d);
                proof {
                    assert(s.pending.deep_view() =~= pend0.push(dv[k as int]));
                    assert(dv.skip(k as int) =~= seq![dv[k as int]] + dv.skip(k + 1));
                    assert(dv.skip(k as int).reverse() =~= dv.skip(k + 1).reverse().push(
                        dv[k as int],
                    ));
                    assert(s.pending.deep_view() =~= old(s).pending.deep_view() + dv.skip(
                        k as int,
                    ).reverse());
                }
            }
            proof {
                assert(dv.skip(0) =~= dv);
            }
        },
        DirObservation::Unreadable => {
        },
    }
}

/// Whether the declared repository list carries `name`.
pub open spec fn repo_list_has(rs: Seq<RepoV>, name: Seq<char>) -> bool
    decreases rs.len(),
{
    if rs.len() == 0 {
        false
    } else if rs.last().name == name {
        true
    } else {
        repo_list_has(rs.drop_last(), name)
    }
}

/// Whether the declared repository list carries `name`, as
/// [`repo_list_has`] says.
pub fn declared_repo(repos: &Vec<Repo>, name: &String) -> (r: bool)
    ensures
        r == repo_list_has(repos.deep_view(), name@),
{
    let mut found: bool = false;
    let mut i: usize = 0;
    while i < repos.len()
        invariant
            i <= repos.len(),
            found == repo_list_has(repos.deep_view().take(i as int), name@),
        decreases repos.len() - i,
    {
        proof {
            assert(repos.deep_view().take(i + 1).drop_last() =~= repos.deep_view().take(i as int));
            assert(repos.deep_view().take(i + 1).last() == repos.deep_view()[i as int]);
        }
        if repos[i].name == *name {
            found = true;
        }
        i += 1;
    }
    proof {
        assert(repos.deep_view().take(repos.len() as int) =~= repos.deep_view());
    }
    found
}

/// The name a discovered repository path has relative to the tree root:
/// the remainder after `root` and one separator, the empty name when the
/// root itself is the repository, nothing when the path lies elsewhere.
pub fn relative_name(path: &String, root: &String) -> (r: Option<String>)
    ensures
        match r {
            Some(n) => (path@ == root@ && n@ == Seq::<char>::empty()) || (is_prefix_of(
                root@ + "/"@,
                path@,
            ) && n@ == path@.subrange((root@ + "/"@).len() as int, path@.len() as int)),
            None => path@ != root@ && !is_prefix_of(root@ + "/"@, path@),
        },
{
    if *path == *root {
        return Some(String::new());
    }
    let prefixed = root.clone().concat("/");
    strip_prefix(path.as_str(), prefixed.as_str())
}

/// The discovered names that the declared list does not mention, in
/// discovery order.
pub open spec fn spec_unmanaged(rs: Seq<RepoV>, names: Seq<Seq<char>>) -> Seq<Seq<char>>
    decreases names.len(),
{
    if names.len() == 0 {
        Seq::empty()
    } else {
        spec_unmanaged(rs, names.drop_last()) + (if repo_list_has(rs, names.last()) {
            Seq::empty()
        } else {
            seq![names.last()]
        })
    }
}

/// Subtracts the declared names from the discovered ones: what remains is
/// the unmanaged-repository report, diagnostic output and never an error.
pub fn find_unmanaged(declared: &Vec<Repo>, discovered: &Vec<String>) -> (r: Vec<String>)
    ensures
        r.deep_view() == spec_unmanaged(declared.deep_view(), discovered.deep_view()),
{
    let ghost rs = declared.deep_view();
    let ghost names = discovered.deep_view();
    let mut out: Vec<String> = Vec::new();
    proof {
        assert(out.deep_view() =~= spec_unmanaged(rs, names.take(0)));
    }
    let mut i: usize = 0;
    while i < discovered.len()
        invariant
            i <= discovered.len(),
            rs == declared.deep_view(),
            names == discovered.deep_view(),
            out.deep_view() == spec_unmanaged(rs, names.take(i as int)),
        decreases discovered.len() - i,
    {
        proof {
            assert(names.take(i + 1).drop_last() =~= names.take(i as int));
            assert(names.take(i + 1).last() == names[i as int]);
        }
        if !declared_repo(declared, &discovered[i]) {
            out.push(discovered[i].clone());
        }
        proof {
            assert(out.deep_view() =~= spec_unmanaged(rs, names.take(i + 1)));
        }
        i += 1;
    }
    proof {
        assert(names.take(discovered.len() as int) =~= names);
    }
    out
}

/// Why a discovered repository cannot be written into a configuration.
#[derive(Debug, PartialEq, Eq)]
pub enum DiscoveryError {
    /// The remote's URL could not be read as text.
    UrlUnreadable { name: String },
    /// The remote's URL matches no known hosting scheme.
    TypeUnknown { name: String, url: String },
}

/// Mathematical image of a [`DiscoveryError`].
pub enum DiscoveryErrorV {
    UrlUnreadable { name: Seq<char> },
    TypeUnknown { name: Seq<char>, url: Seq<char> },
}

impl DeepView for DiscoveryError {
    type V = DiscoveryErrorV;

    open spec fn deep_view(&self) -> DiscoveryErrorV {
        match self {
            DiscoveryError::UrlUnreadable { name } => DiscoveryErrorV::UrlUnreadable {
                name: name@,
            },
            DiscoveryError::TypeUnknown { name, url } => DiscoveryErrorV::TypeUnknown {
                name: name@,
                url: url@,
            },
        }
    }
}

/// What classifying a discovered repository's remotes must yield: each one
/// in order with its hosting type resolved from the URL text, or the first
/// remote that cannot be represented.
pub open spec fn spec_classify(os: Seq<ObservedRemoteV>) -> Result<Seq<RemoteV>, DiscoveryErrorV>
    decreases os.len(),
{
    if os.len() == 0 {
        Ok(Seq::empty())
    } else {
        match spec_classify(os.drop_last()) {
            Err(e) => Err(e),
            Ok(rs) => {
                let o = os.last();
                match o.url {
                    None => Err(DiscoveryErrorV::UrlUnreadable { name: o.name }),
                    Some(u) => match spec_remote_type_of(u) {
                        None => Err(DiscoveryErrorV::TypeUnknown { name: o.name, url: u }),
                        Some(t) => Ok(
                            rs.push(RemoteV { name: o.name, url: u, remote_type: t }),
                        ),
                    },
                }
            },
        }
    }
}

/// Turns the remotes observed on a discovered repository into configuration
/// remotes, classifying each URL's hosting scheme; a remote whose URL is
/// unreadable or unclassifiable fails the whole repository, as
/// [`spec_classify`] states.
pub fn classify_remotes(observed: &Vec<ObservedRemote>) -> (r: Result<Vec<Remote>, DiscoveryError>)
    ensures
        match r {
            Ok(rs) => spec_classify(observed.deep_view()) == Ok::<
                Seq<RemoteV>,
                DiscoveryErrorV,
            >(rs.deep_view()),
            Err(e) => spec_classify(observed.deep_view()) == Err::<
                Seq<RemoteV>,
                DiscoveryErrorV,
            >(e.deep_view()),
        },
{
    let ghost ov = observed.deep_view();
    let mut out: Vec<Remote> = Vec::new();
    proof {
        assert(ov.take(0) =~= Seq::<ObservedRemoteV>::empty());
        assert(out.deep_view() =~= Seq::<RemoteV>::empty());
    }
    let mut i: usize = 0;
    while i < observed.len()
        invariant
            i <= observed.len(),
            ov == observed.deep_view(),
            spec_classify(ov.take(i as int)) == Ok::<Seq<RemoteV>, DiscoveryErrorV>(
                out.deep_view(),
            ),
        decreases observed.len() - i,
    {
        proof {
            assert(ov.take(i + 1).drop_last() =~= ov.take(i as int));
            assert(ov.take(i + 1).last() == ov[i as int]);
        }
        let o = &observed[i];
        match &o.url {
            None => {
                proof {
                    lemma_classify_error_persists(
                        ov,
                        i as int,
                        DiscoveryErrorV::UrlUnreadable { name: ov[i as int].name },
                    );
                }
                return Err(DiscoveryError::UrlUnreadable { name: o.name.clone() });
            },
            Some(u) => match detect_remote_type(u.as_str()) {
                None => {
                    proof {
                        lemma_classify_error_persists(
                            ov,
                            i as int,
                            DiscoveryErrorV::TypeUnknown {
                                name: ov[i as int].name,
                                url: ov[i as int].url->Some_0,
                            },
                        );
                    }
                    return Err(
                        DiscoveryError::TypeUnknown { name: o.name.clone(), url: u.clone() },
                    );
                },
                Some(t) => {
                    out.push(Remote { name: o.name.clone(), url: u.clone(), remote_type: t });
                    proof {
                        assert(out.deep_view() =~= spec_classify(ov.take(i + 1))->Ok_0);
                    }
                },
            },
        }
        i += 1;
    }
    proof {
        assert(ov.take(observed.len() as int) =~= ov);
    }
    Ok(out)
}

proof fn lemma_classify_error_persists(ov: Seq<ObservedRemoteV>, i: int, e: DiscoveryErrorV)
    requires
        0 <= i < ov.len(),
        spec_classify(ov.take(i)) is Ok,
        ({
            let o = ov[i];
            match o.url {
                None => e == (DiscoveryErrorV::UrlUnreadable { name: o.name }),
                Some(u) => spec_remote_type_of(u) is None && e == (DiscoveryErrorV::TypeUnknown {
                    name: o.name,
                    url: u,
                }),
            }
        }),
    ensures
        spec_classify(ov) == Err::<Seq<RemoteV>, DiscoveryErrorV>(e),
    decreases ov.len(),
{
    if ov.len() == i + 1 {
        assert(ov.drop_last() =~= ov.take(i));
        assert(ov.last() == ov[i]);
    } else {
        assert(ov.drop_last().take(i) =~= ov.take(i));
        assert(ov.drop_last()[i] == ov[i]);
        lemma_classify_error_persists(ov.drop_last(), i, e);
    }
}

/// How a tree root is written back out: home-relative, with the home prefix
/// replaced by a tilde, when the root lies under the home directory, and
/// verbatim otherwise.
pub open spec fn spec_display_root(p: Seq<char>, h: Seq<char>) -> Seq<char> {
    if p == h {
        "~"@
    } else if is_prefix_of(h + "/"@, p) {
        "~/"@ + p.subrange((h + "/"@).len() as int, p.len() as int)
    } else {
        p
    }
}

/// Builds the configuration tree that bootstrapping from an existing
/// directory reports: the repositories discovered under `path`, under a
/// root written home-relative when it lies beneath `home`.
pub fn find_in_tree(path: &String, home: &String, repos: Vec<Repo>) -> (t: Tree)
    ensures
        t.root@ == spec_display_root(path@, home@),
        t.repos.deep_view() == Some(repos.deep_view()),
{
    let root: String = if *path == *home {
        String::from_str("~")
    } else {
        let prefixed = home.clone().concat("/");
        match strip_prefix(path.as_str(), prefixed.as_str()) {
            Some(rest) => String::from_str("~/").concat(rest.as_str()),
            None => path.clone(),
        }
    };
    Tree { root, repos: Some(repos) }
}

/// Law: orphan detection is exact. The unmanaged report holds precisely the
/// discovered names that are not declared — an undeclared discovered
/// repository always appears, a declared one never does.
pub proof fn lemma_unmanaged_exact(rs: Seq<RepoV>, names: Seq<Seq<char>>)
    ensures
        forall|n: Seq<char>|
            #[trigger] spec_unmanaged(rs, names).contains(n) <==> (names.contains(n)
                && !repo_list_has(rs, n)),
    decreases names.len(),
{
    if names.len() == 0 {
        assert forall|n: Seq<char>| !spec_unmanaged(rs, names).contains(n) by {
            assert(spec_unmanaged(rs, names).len() == 0);
        }
    } else {
        lemma_unmanaged_exact(rs, names.drop_last());
        assert forall|n: Seq<char>|
            #[trigger] spec_unmanaged(rs, names).contains(n) <==> (names.contains(n)
                && !repo_list_has(rs, n)) by {
            let prev = spec_unmanaged(rs, names.drop_last());
            if spec_unmanaged(rs, names).contains(n) {
                let k = choose|k: int|
                    0 <= k < spec_unmanaged(rs, names).len() && spec_unmanaged(rs, names)[k] == n;
                if k < prev.len() {
                    assert(prev.contains(n));
                    assert(names.drop_last().contains(n));
                    let j = choose|j: int|
                        0 <= j < names.drop_last().len() && names.drop_last()[j] == n;
                    assert(names[j] == n);
                } else {
                    assert(n == names.last());
                    assert(names[names.len() - 1] == n);
                }
            }
            if names.contains(n) && !repo_list_has(rs, n) {
                let j = choose|j: int| 0 <= j < names.len() && names[j] == n;
                if j < names.len() - 1 {
                    assert(names.drop_last()[j] == n);
                    assert(names.drop_last().contains(n));
                    assert(prev.contains(n));
                    let k = choose|k: int| 0 <= k < prev.len() && prev[k] == n;
                    assert(spec_unmanaged(rs, names)[k] == n);
                } else {
                    assert(names.last() == n);
                    assert(spec_unmanaged(rs, names).last() == n);
                }
            }
        }
    }
}

} // verus!
