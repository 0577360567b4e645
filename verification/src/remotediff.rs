//! Three-way reconciliation of a repository's remotes, keyed by name:
//! create the declared remotes that are missing, update those whose URL
//! drifted, and only then delete the observed remotes that are not declared.

use vstd::prelude::*;
use crate::config::Remote;
use crate::config::RemoteV;

verus! {

/// A remote as observed on an open repository. The URL is `None` when the
/// backend cannot represent it as text; such a remote is reported and
/// skipped, never silently rewritten.
#[derive(Debug, PartialEq, Eq)]
pub struct ObservedRemote {
    pub name: String,
    pub url: Option<String>,
}

/// Mathematical image of an [`ObservedRemote`].
pub struct ObservedRemoteV {
    pub name: Seq<char>,
    pub url: Option<Seq<char>>,
}

impl DeepView for ObservedRemote {
    type V = ObservedRemoteV;

    open spec fn deep_view(&self) -> ObservedRemoteV {
        ObservedRemoteV { name: self.name@, url: self.url.deep_view() }
    }
}

/// One mutation of a repository's remote set.
#[derive(Debug, PartialEq, Eq, Clone)]
pub enum RemoteAction {
    Create { name: String, url: String },
    SetUrl { name: String, url: String },
    Delete { name: String },
}

/// Mathematical image of a [`RemoteAction`].
pub enum RemoteActionV {
    Create { name: Seq<char>, url: Seq<char> },
    SetUrl { name: Seq<char>, url: Seq<char> },
    Delete { name: Seq<char> },
}

impl DeepView for RemoteAction {
    type V = RemoteActionV;

    open spec fn deep_view(&self) -> RemoteActionV {
        match self {
            RemoteAction::Create { name, url } => RemoteActionV::Create {
                name: name@,
                url: url@,
            },
            RemoteAction::SetUrl { name, url } => RemoteActionV::SetUrl {
                name: name@,
                url: url@,
            },
            RemoteAction::Delete { name } => RemoteActionV::Delete { name: name@ },
        }
    }
}

/// What the observed remote set holds under a name: `None` when the name is
/// absent, otherwise the (possibly unreadable) URL of the remote carrying it.
pub open spec fn observed_lookup(os: Seq<ObservedRemoteV>, name: Seq<char>) -> Option<
    Option<Seq<char>>,
>
    decreases os.len(),
{
    if os.len() == 0 {
        None
    } else if os.last().name == name {
        Some(os.last().url)
    } else {
        observed_lookup(os.drop_last(), name)
    }
}

/// The URL the declared list assigns to a name, if it declares it at all.
pub open spec fn declared_lookup(ds: Seq<RemoteV>, name: Seq<char>) -> Option<Seq<char>>
    decreases ds.len(),
{
    if ds.len() == 0 {
        None
    } else if ds.last().name == name {
        Some(ds.last().url)
    } else {
        declared_lookup(ds.drop_last(), name)
    }
}

/// Whether the declared list mentions `name`.
pub open spec fn declared_has(ds: Seq<RemoteV>, name: Seq<char>) -> bool {
    declared_lookup(ds, name) is Some
}

/// Whether the observed set mentions `name`.
pub open spec fn observed_has(os: Seq<ObservedRemoteV>, name: Seq<char>) -> bool {
    observed_lookup(os, name) is Some
}

/// The mutations one declared remote gives rise to: created when absent,
/// re-pointed when its observed URL differs, left alone otherwise; a remote
/// whose observed URL is unreadable is skipped.
pub open spec fn action_for(os: Seq<ObservedRemoteV>, d: RemoteV) -> Seq<RemoteActionV> {
    match observed_lookup(os, d.name) {
        None => seq![RemoteActionV::Create { name: d.name, url: d.url }],
        Some(None) => seq![],
        Some(Some(u)) => if u != d.url {
            seq![RemoteActionV::SetUrl { name: d.name, url: d.url }]
        } else {
            seq![]
        },
    }
}

/// The create/update phase: the actions of every declared remote, in
/// declared order.
pub open spec fn creates_updates(ds: Seq<RemoteV>, os: Seq<ObservedRemoteV>) -> Seq<RemoteActionV>
    decreases ds.len(),
{
    if ds.len() == 0 {
        Seq::empty()
    } else {
        creates_updates(ds.drop_last(), os) + action_for(os, ds.last())
    }
}

/// The delete phase: one deletion for every observed remote whose name is
/// not declared, in observed order.
pub open spec fn deletes(ds: Seq<RemoteV>, os: Seq<ObservedRemoteV>) -> Seq<RemoteActionV>
    decreases os.len(),
{
    if os.len() == 0 {
        Seq::empty()
    } else {
        deletes(ds, os.drop_last()) + (if declared_has(ds, os.last().name) {
            Seq::empty()
        } else {
            seq![RemoteActionV::Delete { name: os.last().name }]
        })
    }
}

/// The whole diff: every create and update strictly before any delete.
pub open spec fn full_diff(ds: Seq<RemoteV>, os: Seq<ObservedRemoteV>) -> Seq<RemoteActionV> {
    creates_updates(ds, os) + deletes(ds, os)
}

/// The declared names whose observed URL could not be read as text.
pub open spec fn unreadable_names(ds: Seq<RemoteV>, os: Seq<ObservedRemoteV>) -> Seq<Seq<char>>
    decreases ds.len(),
{
    if ds.len() == 0 {
        Seq::empty()
    } else {
        unreadable_names(ds.drop_last(), os) + (if observed_lookup(os, ds.last().name) == Some(
            None::<Seq<char>>,
        ) {
            seq![ds.last().name]
        } else {
            Seq::empty()
        })
    }
}

/// Looks `name` up in the observed remotes, as [`observed_lookup`] does.
fn lookup_observed(observed: &Vec<ObservedRemote>, name: &String) -> (r: Option<Option<String>>)
    ensures
        r.deep_view() == observed_lookup(observed.deep_view(), name@),
{
    let mut r: Option<Option<String>> = None;
    let mut i: usize = 0;
    while i < observed.len()
        invariant
            i <= observed.len(),
            r.deep_view() == observed_lookup(observed.deep_view().take(i as int), name@),
        decreases observed.len() - i,
    {
        proof {
            assert(observed.deep_view().take(i + 1).drop_last() =~= observed.deep_view().take(
                i as int,
            ));
            assert(observed.deep_view().take(i + 1).last() == observed.deep_view()[i as int]);
        }
        if observed[i].name == *name {
            r = match &observed[i].url {
                Some(u) => Some(Some(u.clone())),
                None => Some(None),
            };
        }
        i += 1;
    }
    proof {
        assert(observed.deep_view().take(observed.len() as int) =~= observed.deep_view());
    }
    r
}

/// Whether the declared list mentions `name`, as [`declared_has`] does.
fn declared_list_has(declared: &Vec<Remote>, name: &String) -> (r: bool)
    ensures
        r == declared_has(declared.deep_view(), name@),
{
    let mut found: bool = false;
    let mut i: usize = 0;
    while i < declared.len()
        invariant
            i <= declared.len(),
            found == declared_has(declared.deep_view().take(i as int), name@),
        decreases declared.len() - i,
    {
        proof {
            assert(declared.deep_view().take(i + 1).drop_last() =~= declared.deep_view().take(
                i as int,
            ));
            assert(declared.deep_view().take(i + 1).last() == declared.deep_view()[i as int]);
        }
        if declared[i].name == *name {
            found = true;
        }
        i += 1;
    }
    proof {
        assert(declared.deep_view().take(declared.len() as int) =~= declared.deep_view());
    }
    found
}

/// Computes the mutations that bring the observed remote set to the declared
/// one, and the declared names whose observed URL was unreadable. Creates and
/// updates come first, in declared order; deletions follow, in observed
/// order, judged against the observed set as it was captured at entry.
pub fn diff_remotes(declared: &Vec<Remote>, observed: &Vec<ObservedRemote>) -> (r: (
    Vec<RemoteAction>,
    Vec<String>,
))
    ensures
        r.0.deep_view() == full_diff(declared.deep_view(), observed.deep_view()),
        r.1.deep_view() == unreadable_names(declared.deep_view(), observed.deep_view()),
{
    let ghost ds = declared.deep_view();
    let ghost os = observed.deep_view();
    let mut actions: Vec<RemoteAction> = Vec::new();
    let mut unreadable: Vec<String> = Vec::new();

    let mut i: usize = 0;
    while i < declared.len()
        invariant
            i <= declared.len(),
            ds == declared.deep_view(),
            os == observed.deep_view(),
            actions.deep_view() == creates_updates(ds.take(i as int), os),
            unreadable.deep_view() == unreadable_names(ds.take(i as int), os),
        decreases declared.len() - i,
    {
        proof {
            assert(ds.take(i + 1).drop_last() =~= ds.take(i as int));
            assert(ds.take(i + 1).last() == ds[i as int]);
        }
        let d = &declared[i];
        match lookup_observed(observed, &d.name) {
            None => {
                actions.push(RemoteAction::Create { name: d.name.clone(), url: d.url.clone() });
                proof {
                    assert(actions.deep_view() =~= creates_updates(ds.take(i + 1), os));
                }
            },
            Some(None) => {
                unreadable.push(d.name.clone());
                proof {
                    assert(actions.deep_view() =~= creates_updates(ds.take(i + 1), os));
                    assert(unreadable.deep_view() =~= unreadable_names(ds.take(i + 1), os));
                }
            },
            Some(Some(u)) => {
                if u != d.url {
                    actions.push(RemoteAction::SetUrl { name: d.name.clone(), url: d.url.clone() });
                }
                proof {
                    assert(actions.deep_view() =~= creates_updates(ds.take(i + 1), os));
                }
            },
        }
        proof {
            assert(unreadable.deep_view() =~= unreadable_names(ds.take(i + 1), os));
        }
        i += 1;
    }
    proof {
        assert(ds.take(declared.len() as int) =~= ds);
    }

    let mut j: usize = 0;
    while j < observed.len()
        invariant
            j <= observed.len(),
            ds == declared.deep_view(),
            os == observed.deep_view(),
            actions.deep_view() == creates_updates(ds, os) + deletes(ds, os.take(j as int)),
            unreadable.deep_view() == unreadable_names(ds, os),
        decreases observed.len() - j,
    {
        proof {
            assert(os.take(j + 1).drop_last() =~= os.take(j as int));
            assert(os.take(j + 1).last() == os[j as int]);
        }
        let ghost acts0 = actions.deep_view();
        let o = &observed[j];
        if !declared_list_has(declared, &o.name) {
            actions.push(RemoteAction::Delete { name: o.name.clone() });
            proof {
                assert(actions.deep_view() =~= acts0 + seq![
                    RemoteActionV::Delete { name: os[j as int].name },
                ]);
                assert(deletes(ds, os.take(j + 1)) == deletes(ds, os.take(j as int)) + seq![
                    RemoteActionV::Delete { name: os[j as int].name },
                ]);
            }
        }
        proof {
            assert(actions.deep_view() =~= creates_updates(ds, os) + deletes(ds, os.take(j + 1)));
        }
        j += 1;
    }
    proof {
        assert(os.take(observed.len() as int) =~= os);
    }
    (actions, unreadable)
}

/// The observed remote set as a map from each name to its readable URL.
pub open spec fn remote_map(os: Seq<ObservedRemoteV>) -> Map<Seq<char>, Seq<char>> {
    Map::new(
        |n: Seq<char>| observed_lookup(os, n) matches Some(Some(_)),
        |n: Seq<char>| observed_lookup(os, n)->Some_0->Some_0,
    )
}

/// The declared remote list as a map from each declared name to its URL.
pub open spec fn declared_map(ds: Seq<RemoteV>) -> Map<Seq<char>, Seq<char>> {
    Map::new(|n: Seq<char>| declared_has(ds, n), |n: Seq<char>| declared_lookup(ds, n)->Some_0)
}

/// The effect of one mutation on a name-to-URL map.
pub open spec fn apply_one(m: Map<Seq<char>, Seq<char>>, a: RemoteActionV) -> Map<
    Seq<char>,
    Seq<char>,
> {
    match a {
        RemoteActionV::Create { name, url } => m.insert(name, url),
        RemoteActionV::SetUrl { name, url } => m.insert(name, url),
        RemoteActionV::Delete { name } => m.remove(name),
    }
}

/// The effect of a whole sequence of mutations, applied in order.
pub open spec fn apply_actions(m: Map<Seq<char>, Seq<char>>, acts: Seq<RemoteActionV>) -> Map<
    Seq<char>,
    Seq<char>,
>
    decreases acts.len(),
{
    if acts.len() == 0 {
        m
    } else {
        apply_actions(apply_one(m, acts.first()), acts.drop_first())
    }
}

/// No pair of declared remotes shares a name.
pub open spec fn declared_names_unique(ds: Seq<RemoteV>) -> bool {
    forall|i: int, j: int| 0 <= i < j < ds.len() ==> ds[i].name != ds[j].name
}

/// Every observed URL could be read as text.
pub open spec fn all_urls_readable(os: Seq<ObservedRemoteV>) -> bool {
    forall|i: int| 0 <= i < os.len() ==> os[i].url is Some
}

/// The observed names that the declared list does not mention.
pub open spec fn undeclared_observed(ds: Seq<RemoteV>, os: Seq<ObservedRemoteV>) -> Set<Seq<char>> {
    Set::new(|n: Seq<char>| observed_has(os, n) && !declared_has(ds, n))
}

proof fn lemma_apply_concat(m: Map<Seq<char>, Seq<char>>, a: Seq<RemoteActionV>, b: Seq<
    RemoteActionV,
>)
    ensures
        apply_actions(m, a + b) == apply_actions(apply_actions(m, a), b),
    decreases a.len(),
{
    if a.len() == 0 {
        assert(a + b =~= b);
    } else {
        assert((a + b).first() == a.first());
        assert((a + b).drop_first() =~= a.drop_first() + b);
        lemma_apply_concat(apply_one(m, a.first()), a.drop_first(), b);
    }
}

proof fn lemma_apply_single(m: Map<Seq<char>, Seq<char>>, a: RemoteActionV)
    ensures
        apply_actions(m, seq![a]) == apply_one(m, a),
{
    let s = seq![a];
    assert(s.first() == a);
    assert(s.drop_first() =~= Seq::<RemoteActionV>::empty());
    assert(apply_actions(apply_one(m, a), Seq::<RemoteActionV>::empty()) == apply_one(m, a));
}

proof fn lemma_lookup_absent(ds: Seq<RemoteV>, n: Seq<char>)
    requires
        forall|i: int| 0 <= i < ds.len() ==> ds[i].name != n,
    ensures
        !declared_has(ds, n),
    decreases ds.len(),
{
    if ds.len() > 0 {
        assert(forall|i: int|
            0 <= i < ds.drop_last().len() ==> #[trigger] ds.drop_last()[i].name != n);
        lemma_lookup_absent(ds.drop_last(), n);
    }
}

proof fn lemma_lookup_readable(os: Seq<ObservedRemoteV>, n: Seq<char>)
    requires
        all_urls_readable(os),
    ensures
        observed_lookup(os, n) != Some(None::<Seq<char>>),
    decreases os.len(),
{
    if os.len() > 0 {
        assert(all_urls_readable(os.drop_last())) by {
            assert(forall|i: int|
                0 <= i < os.drop_last().len() ==> #[trigger] os.drop_last()[i] == os[i]);
        }
        lemma_lookup_readable(os.drop_last(), n);
    }
}

proof fn lemma_creates_updates_apply(ds: Seq<RemoteV>, os: Seq<ObservedRemoteV>)
    requires
        declared_names_unique(ds),
        all_urls_readable(os),
    ensures
        apply_actions(remote_map(os), creates_updates(ds, os)) == remote_map(
            os,
        ).union_prefer_right(declared_map(ds)),
    decreases ds.len(),
{
    if ds.len() == 0 {
        assert(remote_map(os).union_prefer_right(declared_map(ds)) =~= remote_map(os));
    } else {
        let ds0 = ds.drop_last();
        let d = ds.last();
        assert(declared_names_unique(ds0)) by {
            assert(forall|i: int| 0 <= i < ds0.len() ==> #[trigger] ds0[i] == ds[i]);
        }
        lemma_creates_updates_apply(ds0, os);
        lemma_apply_concat(remote_map(os), creates_updates(ds0, os), action_for(os, d));
        let mid = remote_map(os).union_prefer_right(declared_map(ds0));
        let target = remote_map(os).union_prefer_right(declared_map(ds));
        assert(forall|i: int| 0 <= i < ds0.len() ==> #[trigger] ds0[i] == ds[i]);
        assert(!declared_has(ds0, d.name)) by {
            lemma_lookup_absent(ds0, d.name);
        }
        lemma_lookup_readable(os, d.name);
        match observed_lookup(os, d.name) {
            None => {
                lemma_apply_single(mid, RemoteActionV::Create { name: d.name, url: d.url });
                assert(apply_actions(mid, action_for(os, d)) == mid.insert(d.name, d.url));
                assert(mid.insert(d.name, d.url) =~= target);
            },
            Some(u_opt) => {
                let u = u_opt->0;
                if u != d.url {
                    lemma_apply_single(mid, RemoteActionV::SetUrl { name: d.name, url: d.url });
                    assert(apply_actions(mid, action_for(os, d)) == mid.insert(d.name, d.url));
                    assert(mid.insert(d.name, d.url) =~= target);
                } else {
                    assert(action_for(os, d) =~= Seq::<RemoteActionV>::empty());
                    assert(remote_map(os).contains_key(d.name));
                    assert(remote_map(os)[d.name] == d.url);
                    assert(mid =~= target);
                }
            },
        }
    }
}

proof fn lemma_deletes_apply(m: Map<Seq<char>, Seq<char>>, ds: Seq<RemoteV>, os: Seq<
    ObservedRemoteV,
>)
    ensures
        apply_actions(m, deletes(ds, os)) == m.remove_keys(undeclared_observed(ds, os)),
    decreases os.len(),
{
    if os.len() == 0 {
        assert(m.remove_keys(undeclared_observed(ds, os)) =~= m);
    } else {
        let os0 = os.drop_last();
        let o = os.last();
        lemma_deletes_apply(m, ds, os0);
        if declared_has(ds, o.name) {
            lemma_apply_concat(m, deletes(ds, os0), Seq::empty());
            assert(deletes(ds, os) =~= deletes(ds, os0) + Seq::<RemoteActionV>::empty());
            assert(undeclared_observed(ds, os) =~= undeclared_observed(ds, os0));
            assert(m.remove_keys(undeclared_observed(ds, os0)) =~= m.remove_keys(
                undeclared_observed(ds, os),
            ));
        } else {
            let tail = seq![RemoteActionV::Delete { name: o.name }];
            lemma_apply_concat(m, deletes(ds, os0), tail);
            lemma_apply_single(
                m.remove_keys(undeclared_observed(ds, os0)),
                RemoteActionV::Delete { name: o.name },
            );
            assert(apply_actions(m.remove_keys(undeclared_observed(ds, os0)), tail)
                == m.remove_keys(undeclared_observed(ds, os0)).remove(o.name));
            assert(m.remove_keys(undeclared_observed(ds, os0)).remove(o.name) =~= m.remove_keys(
                undeclared_observed(ds, os),
            ));
        }
    }
}

/// Law: the diff converges. Applying the computed mutations to the observed
/// remote map yields exactly the declared remote map, whatever the previous
/// state was, provided declared names are unique and every observed URL was
/// readable.
pub proof fn lemma_diff_converges(ds: Seq<RemoteV>, os: Seq<ObservedRemoteV>)
    requires
        declared_names_unique(ds),
        all_urls_readable(os),
    ensures
        apply_actions(remote_map(os), full_diff(ds, os)) == declared_map(ds),
{
    lemma_apply_concat(remote_map(os), creates_updates(ds, os), deletes(ds, os));
    lemma_creates_updates_apply(ds, os);
    let mid = remote_map(os).union_prefer_right(declared_map(ds));
    lemma_deletes_apply(mid, ds, os);
    assert(mid.remove_keys(undeclared_observed(ds, os)) =~= declared_map(ds)) by {
        assert forall|n: Seq<char>|
            mid.remove_keys(undeclared_observed(ds, os)).contains_key(n) == declared_map(
                ds,
            ).contains_key(n) by {
            if !declared_has(ds, n) {
                if observed_lookup(os, n) is Some {
                    assert(undeclared_observed(ds, os).contains(n));
                }
            }
        }
    }
}

proof fn lemma_creates_updates_empty(ds: Seq<RemoteV>, os: Seq<ObservedRemoteV>)
    requires
        forall|i: int|
            0 <= i < ds.len() ==> observed_lookup(os, #[trigger] ds[i].name) == Some(
                Some(ds[i].url),
            ),
    ensures
        creates_updates(ds, os) == Seq::<RemoteActionV>::empty(),
        unreadable_names(ds, os) == Seq::<Seq<char>>::empty(),
    decreases ds.len(),
{
    if ds.len() > 0 {
        assert(forall|i: int| 0 <= i < ds.drop_last().len() ==> #[trigger] ds.drop_last()[i]
            == ds[i]);
        lemma_creates_updates_empty(ds.drop_last(), os);
        assert(observed_lookup(os, ds.last().name) == Some(Some(ds.last().url)));
        assert(creates_updates(ds, os) =~= Seq::<RemoteActionV>::empty());
        assert(unreadable_names(ds, os) =~= Seq::<Seq<char>>::empty());
    }
}

proof fn lemma_deletes_empty(ds: Seq<RemoteV>, os: Seq<ObservedRemoteV>)
    requires
        forall|i: int| 0 <= i < os.len() ==> declared_has(ds, #[trigger] os[i].name),
    ensures
        deletes(ds, os) == Seq::<RemoteActionV>::empty(),
    decreases os.len(),
{
    if os.len() > 0 {
        assert(forall|i: int| 0 <= i < os.drop_last().len() ==> #[trigger] os.drop_last()[i]
            == os[i]);
        lemma_deletes_empty(ds, os.drop_last());
        assert(deletes(ds, os) =~= Seq::<RemoteActionV>::empty());
    }
}

/// Law: reconciliation is idempotent. When every declared remote is already
/// observed with its declared URL and nothing undeclared is observed, the
/// diff performs zero mutations and reports nothing unreadable.
pub proof fn lemma_diff_idempotent(ds: Seq<RemoteV>, os: Seq<ObservedRemoteV>)
    requires
        forall|i: int|
            0 <= i < ds.len() ==> observed_lookup(os, #[trigger] ds[i].name) == Some(
                Some(ds[i].url),
            ),
        forall|i: int| 0 <= i < os.len() ==> declared_has(ds, #[trigger] os[i].name),
    ensures
        full_diff(ds, os) == Seq::<RemoteActionV>::empty(),
        unreadable_names(ds, os) == Seq::<Seq<char>>::empty(),
{
    lemma_creates_updates_empty(ds, os);
    lemma_deletes_empty(ds, os);
    assert(full_diff(ds, os) =~= Seq::<RemoteActionV>::empty());
}

proof fn lemma_declared_lookup_member(ds: Seq<RemoteV>, i: int)
    requires
        declared_names_unique(ds),
        0 <= i < ds.len(),
    ensures
        declared_lookup(ds, ds[i].name) == Some(ds[i].url),
    decreases ds.len(),
{
    if i < ds.len() - 1 {
        assert(ds.last().name != ds[i].name);
        assert(declared_names_unique(ds.drop_last())) by {
            assert(forall|k: int| 0 <= k < ds.drop_last().len() ==> #[trigger] ds.drop_last()[k]
                == ds[k]);
        }
        lemma_declared_lookup_member(ds.drop_last(), i);
    }
}

proof fn lemma_observed_member_has(os: Seq<ObservedRemoteV>, i: int)
    requires
        0 <= i < os.len(),
    ensures
        observed_lookup(os, os[i].name) is Some,
    decreases os.len(),
{
    if i < os.len() - 1 && os.last().name != os[i].name {
        assert(os.drop_last()[i] == os[i]);
        lemma_observed_member_has(os.drop_last(), i);
    }
}

/// Law: reconciliation is idempotent across two runs. When a second
/// observation reads back exactly the remote map the first run's mutations
/// produced, the second run computes zero mutations.
pub proof fn lemma_second_run_is_empty(
    ds: Seq<RemoteV>,
    os1: Seq<ObservedRemoteV>,
    os2: Seq<ObservedRemoteV>,
)
    requires
        declared_names_unique(ds),
        all_urls_readable(os1),
        all_urls_readable(os2),
        remote_map(os2) == apply_actions(remote_map(os1), full_diff(ds, os1)),
    ensures
        full_diff(ds, os2) == Seq::<RemoteActionV>::empty(),
        unreadable_names(ds, os2) == Seq::<Seq<char>>::empty(),
{
    lemma_diff_converges(ds, os1);
    assert(remote_map(os2) == declared_map(ds));
    assert forall|i: int|
        0 <= i < ds.len() implies observed_lookup(os2, #[trigger] ds[i].name) == Some(
        Some(ds[i].url),
    ) by {
        lemma_declared_lookup_member(ds, i);
        assert(declared_map(ds).contains_key(ds[i].name));
        assert(remote_map(os2).contains_key(ds[i].name));
        assert(remote_map(os2)[ds[i].name] == ds[i].url);
        lemma_lookup_readable(os2, ds[i].name);
    }
    assert forall|i: int| 0 <= i < os2.len() implies declared_has(ds, #[trigger] os2[i].name) by {
        lemma_observed_member_has(os2, i);
        lemma_lookup_readable(os2, os2[i].name);
        assert(remote_map(os2).contains_key(os2[i].name));
        assert(declared_map(ds).contains_key(os2[i].name));
    }
    lemma_diff_idempotent(ds, os2);
}

proof fn lemma_creates_updates_no_delete(ds: Seq<RemoteV>, os: Seq<ObservedRemoteV>)
    ensures
        forall|k: int|
            0 <= k < creates_updates(ds, os).len() ==> !(#[trigger] creates_updates(ds, os)[k]
                is Delete),
    decreases ds.len(),
{
    if ds.len() > 0 {
        lemma_creates_updates_no_delete(ds.drop_last(), os);
    }
}

proof fn lemma_deletes_only_delete(ds: Seq<RemoteV>, os: Seq<ObservedRemoteV>)
    ensures
        forall|k: int|
            0 <= k < deletes(ds, os).len() ==> (#[trigger] deletes(ds, os)[k] is Delete),
    decreases os.len(),
{
    if os.len() > 0 {
        lemma_deletes_only_delete(ds, os.drop_last());
    }
}

/// Law: ordering. In the computed diff every create and update stands before
/// every delete, so a renamed remote is never transiently absent.
pub proof fn lemma_creates_before_deletes(ds: Seq<RemoteV>, os: Seq<ObservedRemoteV>)
    ensures
        forall|i: int, j: int|
            0 <= i < j < full_diff(ds, os).len() && (#[trigger] full_diff(ds, os)[i] is Delete)
                ==> (#[trigger] full_diff(ds, os)[j] is Delete),
{
    lemma_creates_updates_no_delete(ds, os);
    lemma_deletes_only_delete(ds, os);
    assert forall|i: int, j: int|
        0 <= i < j < full_diff(ds, os).len() && (full_diff(ds, os)[i] is Delete) implies (full_diff(
        ds,
        os,
    )[j] is Delete) by {
        let cu = creates_updates(ds, os);
        if i < cu.len() {
            assert(full_diff(ds, os)[i] == cu[i]);
        } else {
            assert(full_diff(ds, os)[j] == deletes(ds, os)[j - cu.len()]);
        }
    }
}

} // verus!
