//! The README cache: an index from repository name to the `updated_at` of the
//! repository when its README was cached, and the choice between the cached copy
//! and a fresh download.
use vstd::prelude::*;

use crate::models::Repo;
use crate::text::str_eq;

verus! {

/// The cache index: one `(name, updated_at)` entry per repository.
///
/// The index is a vector of pairs rather than a `BTreeMap<String, String>`: vstd
/// gives `BTreeMap` with `String` keys no specification from which a lookup after an
/// insert can be proved. So the index keeps its own entries, with "no name twice" as
/// its type invariant and `recorded` as its map view; the order of the entries is not
/// part of that view. The JSON file is written through a sorted map, so names come out
/// in order there.
pub struct CacheIndex {
    entries: Vec<(String, String)>,
}

/// The entries as a map; a later entry for a name wins.
pub open spec fn index_map(s: Seq<(String, String)>) -> Map<Seq<char>, Seq<char>>
    decreases s.len(),
{
    if s.len() == 0 {
        Map::empty()
    } else {
        index_map(s.drop_last()).insert(s.last().0@, s.last().1@)
    }
}

pub open spec fn keys_distinct(s: Seq<(String, String)>) -> bool {
    forall|i: int, j: int| 0 <= i < j < s.len() ==> (#[trigger] s[i]).0@ != (#[trigger] s[j]).0@
}

impl CacheIndex {
    /// The recorded `updated_at` of each name.
    pub closed spec fn recorded(self) -> Map<Seq<char>, Seq<char>> {
        index_map(self.entries@)
    }

    /// No name has two entries.
    #[verifier::type_invariant]
    spec fn well_formed(self) -> bool {
        keys_distinct(self.entries@)
    }
}

impl View for CacheIndex {
    type V = Map<Seq<char>, Seq<char>>;

    open spec fn view(&self) -> Map<Seq<char>, Seq<char>> {
        self.recorded()
    }
}

proof fn lemma_index_map_absent(s: Seq<(String, String)>, k: Seq<char>)
    requires
        forall|i: int| 0 <= i < s.len() ==> (#[trigger] s[i]).0@ != k,
    ensures
        !index_map(s).contains_key(k),
    decreases s.len(),
{
    if s.len() > 0 {
        assert(s.last() == s[s.len() - 1]);
        lemma_index_map_absent(s.drop_last(), k);
    }
}

proof fn lemma_index_map_lookup(s: Seq<(String, String)>, i: int)
    requires
        keys_distinct(s),
        0 <= i < s.len(),
    ensures
        index_map(s).contains_key(s[i].0@),
        index_map(s)[s[i].0@] == s[i].1@,
    decreases s.len(),
{
    if i < s.len() - 1 {
        let d = s.drop_last();
        assert(keys_distinct(d)) by {
            assert forall|a: int, b: int| 0 <= a < b < d.len() implies (#[trigger] d[a]).0@ != (
            #[trigger] d[b]).0@ by {
                assert(d[a] == s[a] && d[b] == s[b]);
            }
        }
        assert(d[i] == s[i]);
        lemma_index_map_lookup(d, i);
        assert(s[i].0@ != s[s.len() - 1].0@);
    }
}

proof fn lemma_keys_distinct_drop_last(s: Seq<(String, String)>)
    requires
        keys_distinct(s),
        s.len() > 0,
    ensures
        keys_distinct(s.drop_last()),
{
    let d = s.drop_last();
    assert forall|a: int, b: int| 0 <= a < b < d.len() implies (#[trigger] d[a]).0@ != (
    #[trigger] d[b]).0@ by {
        assert(d[a] == s[a] && d[b] == s[b]);
    }
}

proof fn lemma_index_map_update(s: Seq<(String, String)>, i: int, x: (String, String))
    requires
        keys_distinct(s),
        0 <= i < s.len(),
        s[i].0@ == x.0@,
    ensures
        index_map(s.update(i, x)) == index_map(s).insert(x.0@, x.1@),
    decreases s.len(),
{
    let u = s.update(i, x);
    assert(u.drop_last() =~= (if i < s.len() - 1 {
        s.drop_last().update(i, x)
    } else {
        s.drop_last()
    }));
    if i < s.len() - 1 {
        lemma_keys_distinct_drop_last(s);
        lemma_index_map_update(s.drop_last(), i, x);
        assert(s[i] == s.drop_last()[i]);
        assert(s.last().0@ != x.0@);
        assert(index_map(u) =~= index_map(s).insert(x.0@, x.1@));
    } else {
        assert(index_map(u) =~= index_map(s).insert(x.0@, x.1@));
    }
}

impl CacheIndex {
    pub fn new() -> (r: CacheIndex)
        ensures
            r@ == Map::<Seq<char>, Seq<char>>::empty(),
    {
        CacheIndex { entries: Vec::new() }
    }

    /// A copy of the index.
    pub fn snapshot(&self) -> (r: CacheIndex)
        ensures
            r@ == self@,
    {
        proof {
            use_type_invariant(self);
        }
        let mut entries: Vec<(String, String)> = Vec::new();
        let mut i: usize = 0;
        while i < self.entries.len()
            invariant
                i <= self.entries@.len(),
                entries@.len() == i,
                forall|k: int| 0 <= k < i ==> #[trigger] entries@[k] == self.entries@[k],
            decreases self.entries@.len() - i,
        {
            let (name, updated_at) = (self.entries[i].0.clone(), self.entries[i].1.clone());
            entries.push((name, updated_at));
            i = i + 1;
        }
        assert(entries@ =~= self.entries@);
        CacheIndex { entries }
    }

    /// The entries, one per name, in the order they were first recorded.
    pub fn pairs(&self) -> (r: &Vec<(String, String)>)
        ensures
            index_map(r@) == self@,
            keys_distinct(r@),
    {
        proof {
            use_type_invariant(self);
        }
        &self.entries
    }

    fn position(&self, name: &str) -> (r: Option<usize>)
        ensures
            r matches Some(i) ==> i < self.entries@.len() && self.entries@[i as int].0@ == name@,
            r is None ==> forall|i: int| 0 <= i < self.entries@.len() ==> (
            #[trigger] self.entries@[i]).0@ != name@,
    {
        let mut i: usize = 0;
        while i < self.entries.len()
            invariant
                i <= self.entries@.len(),
                forall|k: int| 0 <= k < i ==> (#[trigger] self.entries@[k]).0@ != name@,
            decreases self.entries@.len() - i,
        {
            if str_eq(self.entries[i].0.as_str(), name) {
                return Some(i);
            }
            i = i + 1;
        }
        None
    }

    /// The `updated_at` recorded for `name`.
    pub fn get(&self, name: &str) -> (r: Option<String>)
        ensures
            r is Some == self@.contains_key(name@),
            r matches Some(v) ==> v@ == self@[name@],
    {
        proof {
            use_type_invariant(self);
        }
        match self.position(name) {
            Some(i) => {
                proof {
                    lemma_index_map_lookup(self.entries@, i as int);
                }
                Some(self.entries[i].1.clone())
            },
            None => {
                proof {
                    lemma_index_map_absent(self.entries@, name@);
                }
                None
            },
        }
    }

    /// Records `updated_at` for `name`, replacing what was recorded before.
    pub fn insert(&mut self, name: String, updated_at: String)
        ensures
            final(self)@ == old(self)@.insert(name@, updated_at@),
    {
        proof {
            use_type_invariant(&*self);
        }
        let ghost before = self.entries@;
        let pos = self.position(name.as_str());
        let mut entries: Vec<(String, String)> = Vec::new();
        std::mem::swap(&mut entries, &mut self.entries);
        assert(entries@ == before);
        let ghost x = (name, updated_at);
        match pos {
            Some(i) => {
                proof {
                    lemma_index_map_update(before, i as int, x);
                }
                entries.set(i, (name, updated_at));
                assert(entries@ =~= before.update(i as int, x));
                assert forall|a: int, b: int| 0 <= a < b < entries@.len() implies (
                #[trigger] entries@[a]).0@ != (#[trigger] entries@[b]).0@ by {
                    assert(before[a] == entries@[a] || a == i);
                    assert(before[b] == entries@[b] || b == i);
                }
            },
            None => {
                entries.push((name, updated_at));
                assert(entries@.drop_last() =~= before);
                assert forall|a: int, b: int| 0 <= a < b < entries@.len() implies (
                #[trigger] entries@[a]).0@ != (#[trigger] entries@[b]).0@ by {
                    if b == entries@.len() - 1 {
                        assert(entries@[a] == before[a]);
                    } else {
                        assert(entries@[a] == before[a]);
                        assert(entries@[b] == before[b]);
                    }
                }
            },
        }
        self.entries = entries;
    }

    /// The cached README of `repo` is current: it was cached when the repository had
    /// the `updated_at` it has now.
    pub fn is_fresh(&self, repo: &Repo) -> (b: bool)
        ensures
            b == (self@.contains_key(repo.name@) && self@[repo.name@] == repo.updated_at@),
    {
        match self.get(repo.name.as_str()) {
            Some(v) => str_eq(v.as_str(), repo.updated_at.as_str()),
            None => false,
        }
    }

    /// Whether the background prefetch has to download the README of `repo`: unless
    /// the index is current for it and a cached file is there.
    pub fn prefetch_needed(&self, repo: &Repo, has_cache: bool) -> (b: bool)
        ensures
            b == !(self@.contains_key(repo.name@) && self@[repo.name@] == repo.updated_at@
                && has_cache),
    {
        !(self.is_fresh(repo) && has_cache)
    }
}

/// A recorded entry is what a later lookup of the same name gives back, and recording
/// one name leaves every other name as it was.
pub proof fn law_cache_read_after_write(
    before: Map<Seq<char>, Seq<char>>,
    name: Seq<char>,
    updated_at: Seq<char>,
    other: Seq<char>,
)
    requires
        other != name,
    ensures
        before.insert(name, updated_at).contains_key(name),
        before.insert(name, updated_at)[name] == updated_at,
        before.insert(name, updated_at).contains_key(other) == before.contains_key(other),
        before.contains_key(other) ==> before.insert(name, updated_at)[other] == before[other],
{
}

/// One of the two README files a repository may have.
#[derive(Debug, Clone, Copy, PartialEq, Eq, Structural)]
pub enum ReadmeFile {
    Ja,
    Md,
}

pub open spec fn readme_file_spec(f: ReadmeFile) -> Seq<char> {
    match f {
        ReadmeFile::Ja => "README.ja.md"@,
        ReadmeFile::Md => "README.md"@,
    }
}

/// The file name of `f`.
pub fn readme_file_name(f: ReadmeFile) -> (s: &'static str)
    ensures
        s@ == readme_file_spec(f),
{
    match f {
        ReadmeFile::Ja => "README.ja.md",
        ReadmeFile::Md => "README.md",
    }
}

/// The cached file to read: `README.ja.md` when it is there, else `README.md`.
pub fn cached_readme_file(ja_exists: bool, md_exists: bool) -> (r: Option<ReadmeFile>)
    ensures
        r == (if ja_exists {
            Some(ReadmeFile::Ja)
        } else if md_exists {
            Some(ReadmeFile::Md)
        } else {
            None
        }),
{
    if ja_exists {
        Some(ReadmeFile::Ja)
    } else if md_exists {
        Some(ReadmeFile::Md)
    } else {
        None
    }
}

/// Where a downloaded README goes and which cached file it makes stale.
pub fn cache_write_targets(fetched_file_name: &str) -> (r: (ReadmeFile, ReadmeFile))
    ensures
        r == (if fetched_file_name@ == "README.ja.md"@ {
            (ReadmeFile::Ja, ReadmeFile::Md)
        } else {
            (ReadmeFile::Md, ReadmeFile::Ja)
        }),
{
    if str_eq(fetched_file_name, "README.ja.md") {
        (ReadmeFile::Ja, ReadmeFile::Md)
    } else {
        (ReadmeFile::Md, ReadmeFile::Ja)
    }
}

/// How the README of a listed repository is had.
#[derive(Debug, Clone, Copy, PartialEq, Eq, Structural)]
pub enum ReadmePlan {
    /// Read this cached file.
    ReadCached(ReadmeFile),
    /// Download it.
    Fetch,
}

/// A current cache with a file in it is read; anything else is downloaded.
pub fn readme_plan(fresh: bool, ja_exists: bool, md_exists: bool) -> (p: ReadmePlan)
    ensures
        p == (if fresh && ja_exists {
            ReadmePlan::ReadCached(ReadmeFile::Ja)
        } else if fresh && md_exists {
            ReadmePlan::ReadCached(ReadmeFile::Md)
        } else {
            ReadmePlan::Fetch
        }),
{
    if fresh {
        match cached_readme_file(ja_exists, md_exists) {
            Some(f) => ReadmePlan::ReadCached(f),
            None => ReadmePlan::Fetch,
        }
    } else {
        ReadmePlan::Fetch
    }
}

/// What the README pane shows for a working copy without either README file.
pub const PREVIEW_README_MISSING: &'static str = "README.ja.md / README.md が見つかりません";

/// What the README pane shows when a README could neither be downloaded nor found
/// in the cache.
pub const README_UNAVAILABLE: &'static str = "README.ja.md / README.md を取得できませんでした";

} // verus!
