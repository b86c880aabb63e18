//! The record of which remote node each browsed path stands for. A
//! listing records the path of every entry it returned; browsing into a
//! folder and downloading a file look the node up by its path again.
use vstd::prelude::*;
use crate::drive::DriveEntry;
use crate::paths::{child_path, child_path_of, no_slash};
use crate::text::{chars_of, same_chars};

verus! {

/// The map that a sequence of (path, node) pairs stands for; a later pair
/// for the same path replaces an earlier one.
pub open spec fn pairs_map<U>(s: Seq<(String, U)>) -> Map<Seq<char>, U>
    decreases s.len(),
{
    if s.len() == 0 {
        Map::empty()
    } else {
        pairs_map(s.drop_last()).insert(s.last().0@, s.last().1)
    }
}

/// The paths of `s` are pairwise different.
pub open spec fn distinct_paths<U>(s: Seq<(String, U)>) -> bool {
    forall|i: int, j: int| 0 <= i < j < s.len() ==> s[i].0@ != s[j].0@
}

proof fn lemma_pairs_map_dom<U>(s: Seq<(String, U)>, k: Seq<char>)
    ensures
        pairs_map(s).dom().contains(k) <==> exists|i: int| 0 <= i < s.len() && s[i].0@ == k,
    decreases s.len(),
{
    if s.len() > 0 {
        lemma_pairs_map_dom(s.drop_last(), k);
        if pairs_map(s).dom().contains(k) && k != s.last().0@ {
            let i = choose|i: int| 0 <= i < s.drop_last().len() && s.drop_last()[i].0@ == k;
            assert(s[i].0@ == k);
        }
        if exists|i: int| 0 <= i < s.len() && s[i].0@ == k {
            let i = choose|i: int| 0 <= i < s.len() && s[i].0@ == k;
            if i < s.len() - 1 {
                assert(s.drop_last()[i].0@ == k);
            }
        }
    }
}

proof fn lemma_pairs_map_value<U>(s: Seq<(String, U)>, i: int)
    requires
        distinct_paths(s),
        0 <= i < s.len(),
    ensures
        pairs_map(s).dom().contains(s[i].0@),
        pairs_map(s)[s[i].0@] == s[i].1,
    decreases s.len(),
{
    if i < s.len() - 1 {
        assert(s.drop_last()[i] == s[i]);
        assert(distinct_paths(s.drop_last()));
        lemma_pairs_map_value(s.drop_last(), i);
        assert(s.last().0@ != s[i].0@);
    }
}

/// The recorded path of every browsed entry, with the node it stands for.
pub struct PathCache<U> {
    entries: Vec<(String, U)>,
}

impl<U> PathCache<U> {
    #[verifier::type_invariant]
    spec fn paths_are_distinct(self) -> bool {
        distinct_paths(self.entries@)
    }

    /// The recorded nodes by path.
    pub closed spec fn view(&self) -> Map<Seq<char>, U> {
        pairs_map(self.entries@)
    }

    /// An empty record.
    pub fn new() -> (c: Self)
        ensures
            c@ == Map::<Seq<char>, U>::empty(),
    {
        PathCache { entries: Vec::new() }
    }

    fn index_of(&self, path: &str) -> (r: Option<usize>)
        ensures
            match r {
                Some(i) => i < self.entries@.len() && self.entries@[i as int].0@ == path@,
                None => forall|i: int| 0 <= i < self.entries@.len() ==> self.entries@[i].0@ != path@,
            },
    {
        let k = chars_of(path);
        let mut i: usize = 0;
        while i < self.entries.len()
            invariant
                i <= self.entries@.len(),
                k@ == path@,
                forall|j: int| 0 <= j < i ==> self.entries@[j].0@ != path@,
            decreases self.entries@.len() - i,
        {
            let name = chars_of(self.entries[i].0.as_str());
            if same_chars(&name, &k) {
                return Some(i);
            }
            i = i + 1;
        }
        None
    }

    /// The node recorded for `path`.
    pub fn get(&self, path: &str) -> (r: Option<&U>)
        ensures
            match r {
                Some(u) => self@.dom().contains(path@) && self@[path@] == *u,
                None => !self@.dom().contains(path@),
            },
    {
        proof {
            use_type_invariant(self);
            lemma_pairs_map_dom(self.entries@, path@);
        }
        match self.index_of(path) {
            Some(i) => {
                proof {
                    lemma_pairs_map_value(self.entries@, i as int);
                }
                Some(&self.entries[i].1)
            },
            None => None,
        }
    }

    /// Records that `path` stands for `node`, replacing what it stood for.
    pub fn insert(&mut self, path: String, node: U)
        ensures
            final(self)@ == old(self)@.insert(path@, node),
    {
        proof {
            use_type_invariant(&*self);
        }
        let ghost old_entries = self.entries@;
        match self.index_of(path.as_str()) {
            Some(i) => {
                let ghost key = path@;
                let mut entries = Vec::new();
                std::mem::swap(&mut entries, &mut self.entries);
                entries.set(i, (path, node));
                proof {
                    let s = entries@;
                    assert(distinct_paths(s)) by {
                        assert forall|a: int, b: int| 0 <= a < b < s.len() implies s[a].0@
                            != s[b].0@ by {
                            if a != i as int && b != i as int {
                                assert(s[a] == old_entries[a] && s[b] == old_entries[b]);
                            } else if a == i as int {
                                assert(s[b] == old_entries[b]);
                                assert(old_entries[a].0@ == key);
                            } else {
                                assert(s[a] == old_entries[a]);
                                assert(old_entries[b].0@ == key);
                            }
                        }
                    }
                    assert(pairs_map(s) =~= pairs_map(old_entries).insert(key, node)) by {
                        assert forall|k: Seq<char>| #[trigger] pairs_map(s).dom().contains(k)
                            == pairs_map(old_entries).insert(key, node).dom().contains(k) by {
                            lemma_pairs_map_dom(s, k);
                            lemma_pairs_map_dom(old_entries, k);
                            if exists|j: int| 0 <= j < s.len() && s[j].0@ == k {
                                let j = choose|j: int| 0 <= j < s.len() && s[j].0@ == k;
                                if j != i as int {
                                    assert(old_entries[j].0@ == k);
                                }
                            }
                            if exists|j: int| 0 <= j < old_entries.len() && old_entries[j].0@ == k {
                                let j = choose|j: int| 0 <= j < old_entries.len() && old_entries[j].0@ == k;
                                if j != i as int {
                                    assert(s[j].0@ == k);
                                } else {
                                    assert(s[i as int].0@ == k);
                                }
                            }
                            if k == key {
                                assert(s[i as int].0@ == k);
                            }
                        }
                        assert forall|k: Seq<char>| #[trigger] pairs_map(s).dom().contains(k)
                            implies pairs_map(s)[k] == pairs_map(old_entries).insert(key, node)[k] by {
                            lemma_pairs_map_dom(s, k);
                            let j = choose|j: int| 0 <= j < s.len() && s[j].0@ == k;
                            lemma_pairs_map_value(s, j);
                            if j != i as int {
                                assert(old_entries[j] == s[j]);
                                lemma_pairs_map_value(old_entries, j);
                            }
                        }
                    }
                }
                self.entries = entries;
            },
            None => {
                let ghost key = path@;
                let mut entries = Vec::new();
                std::mem::swap(&mut entries, &mut self.entries);
                entries.push((path, node));
                proof {
                    let s = entries@;
                    assert(s.drop_last() == old_entries);
                    assert(distinct_paths(s)) by {
                        assert forall|a: int, b: int| 0 <= a < b < s.len() implies s[a].0@
                            != s[b].0@ by {
                            if b == s.len() - 1 {
                                assert(s[a] == old_entries[a]);
                            } else {
                                assert(s[a] == old_entries[a] && s[b] == old_entries[b]);
                            }
                        }
                    }
                }
                self.entries = entries;
            },
        }
    }

    /// Forgets every recorded path.
    pub fn clear(&mut self)
        ensures
            final(self)@ == Map::<Seq<char>, U>::empty(),
    {
        self.entries = Vec::new();
    }
}

/// The record after a listing of folder `parent` returned `items`: each
/// entry's path under `parent` now stands for its node, in listing order.
pub open spec fn after_listing<U>(
    m: Map<Seq<char>, U>,
    parent: Seq<char>,
    items: Seq<(DriveEntry, U)>,
) -> Map<Seq<char>, U>
    decreases items.len(),
{
    if items.len() == 0 {
        m
    } else {
        after_listing(m, parent, items.drop_last()).insert(
            child_path_of(parent, items.last().0.name@),
            items.last().1,
        )
    }
}

/// Where the entries of a folder come from, with the node of a folder
/// that an earlier listing recorded.
#[derive(Debug)]
pub enum BrowsePlan<'a, U> {
    /// List the root of "My Files".
    Root,
    /// List the devices section.
    Devices,
    /// List the recorded folder node.
    Folder(&'a U),
    /// The path was never recorded: nothing can be listed.
    NotRecorded,
}

/// What a download of `remote_path` into `cache_dir` uses: the node the
/// path stands for and the local destination, when the path is recorded,
/// its last name is a plain file name and `cache_dir` is absolute.
pub open spec fn download_plan_of<U>(
    m: Map<Seq<char>, U>,
    remote_path: Seq<char>,
    cache_dir: Seq<u8>,
) -> Option<(U, Seq<u8>)> {
    let name = crate::paths::after_last_slash(remote_path);
    if m.dom().contains(remote_path) && crate::paths::is_plain_file_name(name) && cache_dir.len()
        > 0 && cache_dir[0] == crate::dirs_env::PATH_SEPARATOR {
        Some((m[remote_path], crate::dirs_env::path_join(cache_dir, vstd::utf8::encode_utf8(name))))
    } else {
        None
    }
}

impl<U> PathCache<U> {
    /// Records the paths of the entries a listing of `parent` returned and
    /// hands the entries back, in order.
    pub fn record_listing(&mut self, parent: &str, items: Vec<(DriveEntry, U)>) -> (entries: Vec<
        DriveEntry,
    >)
        ensures
            final(self)@ == after_listing(old(self)@, parent@, items@),
            entries@.len() == items@.len(),
            forall|i: int| 0 <= i < items@.len() ==> entries@[i] == #[trigger] items@[i].0,
    {
        let n = items.len();
        let ghost all = items@;
        assert(all.len() == n);
        let ghost start = self@;
        let mut rest = items;
        let mut out: Vec<DriveEntry> = Vec::new();
        let mut k: usize = 0;
        proof {
            assert(all.take(0) == Seq::<(DriveEntry, U)>::empty());
            assert(all.skip(0) == all);
        }
        while rest.len() > 0
            invariant
                k <= all.len(),
                all.len() <= usize::MAX,
                rest@ == all.skip(k as int),
                out@.len() == k,
                forall|i: int| 0 <= i < k ==> out@[i] == #[trigger] all[i].0,
                self@ == after_listing(start, parent@, all.take(k as int)),
            decreases rest.len(),
        {
            let (e, u) = rest.remove(0);
            proof {
                assert(all.skip(k as int)[0] == all[k as int]);
                assert(all.skip(k as int).remove(0) =~= all.skip(k + 1));
                assert(all.take(k + 1).drop_last() =~= all.take(k as int));
                assert(all.take(k + 1).last() == all[k as int]);
            }
            let p = child_path(parent, e.name.as_str());
            self.insert(p, u);
            out.push(e);
            k = k + 1;
        }
        proof {
            assert(all.take(all.len() as int) == all);
        }
        out
    }

    /// Chooses where the listing of `path` comes from.
    pub fn browse_plan(&self, path: &str) -> (plan: BrowsePlan<'_, U>)
        ensures
            match crate::daemon::browse_source_of(path@) {
                crate::daemon::BrowseSource::Root => plan is Root,
                crate::daemon::BrowseSource::Devices => plan is Devices,
                crate::daemon::BrowseSource::RecordedFolder => match plan {
                    BrowsePlan::Folder(u) => self@.dom().contains(path@) && self@[path@] == *u,
                    BrowsePlan::NotRecorded => !self@.dom().contains(path@),
                    _ => false,
                },
            },
    {
        match crate::daemon::browse_source(path) {
            crate::daemon::BrowseSource::Root => BrowsePlan::Root,
            crate::daemon::BrowseSource::Devices => BrowsePlan::Devices,
            crate::daemon::BrowseSource::RecordedFolder => match self.get(path) {
                Some(u) => BrowsePlan::Folder(u),
                None => BrowsePlan::NotRecorded,
            },
        }
    }

    /// The node and local destination for a download of `remote_path`
    /// into `cache_dir`.
    pub fn download_plan(&self, remote_path: &str, cache_dir: &[u8]) -> (r: Option<(&U, Vec<u8>)>)
        ensures
            match download_plan_of(self@, remote_path@, cache_dir@) {
                Some((u, dest)) => r matches Some((v, d)) && *v == u && d@ == dest,
                None => r is None,
            },
    {
        let node = match self.get(remote_path) {
            Some(u) => u,
            None => return None,
        };
        let name = match crate::daemon::download_name(remote_path) {
            Some(n) => n,
            None => return None,
        };
        match crate::daemon::download_destination(cache_dir, name.as_str()) {
            Some(dest) => Some((node, dest)),
            None => None,
        }
    }
}

proof fn lemma_child_path_injective(parent: Seq<char>, a: Seq<char>, b: Seq<char>)
    requires
        child_path_of(parent, a) == child_path_of(parent, b),
    ensures
        a == b,
{
    let base = if crate::paths::is_root_path(parent) {
        Seq::<char>::empty()
    } else {
        crate::paths::trim_end_slashes(parent)
    };
    if crate::paths::is_root_path(parent) {
        assert(child_path_of(parent, a) =~= base + seq!['/'] + a);
        assert(child_path_of(parent, b) =~= base + seq!['/'] + b);
    }
    assert((base + seq!['/'] + a).skip(base.len() + 1int) =~= a);
    assert((base + seq!['/'] + b).skip(base.len() + 1int) =~= b);
}

/// After a listing, the path of each entry stands for that entry's node,
/// unless a later entry of the same listing has the same name.
pub proof fn law_listed_entry_is_recorded<U>(
    m: Map<Seq<char>, U>,
    parent: Seq<char>,
    items: Seq<(DriveEntry, U)>,
    i: int,
)
    requires
        0 <= i < items.len(),
        forall|j: int| i < j < items.len() ==> items[j].0.name@ != items[i].0.name@,
    ensures
        after_listing(m, parent, items).dom().contains(child_path_of(parent, items[i].0.name@)),
        after_listing(m, parent, items)[child_path_of(parent, items[i].0.name@)] == items[i].1,
    decreases items.len(),
{
    let key = child_path_of(parent, items[i].0.name@);
    if i < items.len() - 1 {
        let pre = items.drop_last();
        assert(pre[i] == items[i]);
        assert forall|j: int| i < j < pre.len() implies pre[j].0.name@ != pre[i].0.name@ by {
            assert(pre[j] == items[j]);
        }
        law_listed_entry_is_recorded(m, parent, pre, i);
        if child_path_of(parent, items.last().0.name@) == key {
            lemma_child_path_injective(parent, items.last().0.name@, items[i].0.name@);
            assert(items[items.len() - 1].0.name@ != items[i].0.name@);
        }
    }
}

/// Opening a file that a listing of `parent` returned downloads that
/// file's node, into the cache directory under the file's own name, when
/// the name is a plain file name, no later entry of the listing has the
/// same name, and the cache directory is absolute.
pub proof fn law_open_listed_file<U>(
    m: Map<Seq<char>, U>,
    parent: Seq<char>,
    items: Seq<(DriveEntry, U)>,
    i: int,
    cache_dir: Seq<u8>,
)
    requires
        0 <= i < items.len(),
        forall|j: int| i < j < items.len() ==> items[j].0.name@ != items[i].0.name@,
        crate::paths::is_plain_file_name(items[i].0.name@),
        cache_dir.len() > 0 && cache_dir[0] == crate::dirs_env::PATH_SEPARATOR,
    ensures
        download_plan_of(
            after_listing(m, parent, items),
            child_path_of(parent, items[i].0.name@),
            cache_dir,
        ) == Some(
            (
                items[i].1,
                crate::dirs_env::path_join(cache_dir, vstd::utf8::encode_utf8(items[i].0.name@)),
            ),
        ),
{
    law_listed_entry_is_recorded(m, parent, items, i);
    crate::paths::law_file_name_of_child(parent, items[i].0.name@);
}

} // verus!
