//! The GitHub side of the workflow: which repositories may be spun off, in which
//! order they are listed, how the paged repository listing is gathered, and the
//! addresses and answers of the API requests.
use vstd::prelude::*;

use crate::models::Repo;
use crate::text::{
    chars_less, chars_less_exec, decimal, decimal_chars, from_chars, lemma_chars_less_asymmetric,
    lemma_chars_less_irreflexive, lemma_chars_less_total, lemma_chars_less_transitive,
    string_of, to_chars, trim, trim_str,
};

verus! {

broadcast use vstd::string::group_string_axioms;

/// A README as fetched from GitHub: which file it came from and its text.
#[derive(Debug, Clone)]
pub struct ReadmeContent {
    pub file_name: &'static str,
    pub markdown: String,
}

/// Only the user's own public repositories that are neither forks nor archived
/// may be spun off.
pub open spec fn repo_selectable(r: Repo) -> bool {
    !r.private && !r.fork && !r.archived
}

pub open spec fn selectable_pred() -> spec_fn(Repo) -> bool {
    |r: Repo| repo_selectable(r)
}

pub fn repo_is_selectable(repo: &Repo) -> (b: bool)
    ensures
        b == repo_selectable(*repo),
{
    !repo.private && !repo.fork && !repo.archived
}

/// The sort key: the time of the last update, as GitHub writes it.
pub open spec fn update_key(r: Repo) -> Seq<char> {
    r.updated_at@
}

/// `p` lists each index below `n` exactly once.
pub open spec fn is_index_permutation(p: Seq<int>, n: nat) -> bool {
    &&& p.len() == n
    &&& forall|k: int| 0 <= k < n ==> 0 <= #[trigger] p[k] < n
    &&& forall|a: int, b: int| 0 <= a < b < n ==> p[a] != p[b]
    &&& forall|m: int| 0 <= m < n ==> #[trigger] covers(p, m)
}

/// Some position of `p` holds `m`.
pub open spec fn covers(p: Seq<int>, m: int) -> bool {
    exists|k: int| 0 <= k < p.len() && p[k] == m
}

/// `out` places `input[p[k]]` at position `k`, newest update first, and keeps
/// repositories updated at the same time in their input order.
pub open spec fn sorted_by_permutation(input: Seq<Repo>, out: Seq<Repo>, p: Seq<int>) -> bool {
    &&& out.len() == input.len()
    &&& is_index_permutation(p, input.len())
    &&& forall|k: int| 0 <= k < out.len() ==> #[trigger] out[k] == input[p[k]]
    &&& forall|a: int, b: int|
        0 <= a < b < out.len() ==> !chars_less(update_key(#[trigger] out[a]), update_key(
            #[trigger] out[b],
        ))
    &&& forall|a: int, b: int|
        0 <= a < b < out.len() && update_key(#[trigger] out[a]) == update_key(#[trigger] out[b])
            ==> p[a] < p[b]
}

/// `out` is `input` stably sorted by `updated_at`, newest first.
pub open spec fn newest_first(input: Seq<Repo>, out: Seq<Repo>) -> bool {
    exists|p: Seq<int>| sorted_by_permutation(input, out, p)
}

proof fn lemma_insert_sorted(
    input: Seq<Repo>,
    out: Seq<Repo>,
    p: Seq<int>,
    r: Repo,
    j: int,
)
    requires
        sorted_by_permutation(input, out, p),
        0 <= j <= out.len(),
        forall|m: int| 0 <= m < j ==> !chars_less(update_key(#[trigger] out[m]), update_key(r)),
        j < out.len() ==> chars_less(update_key(out[j]), update_key(r)),
    ensures
        sorted_by_permutation(input.push(r), out.insert(j, r), p.insert(j, input.len() as int)),
{
    let n = input.len() as int;
    let out2 = out.insert(j, r);
    let p2 = p.insert(j, n);
    let in2 = input.push(r);
    assert forall|m: int| j <= m < out.len() implies chars_less(
        update_key(#[trigger] out[m]),
        update_key(r),
    ) by {
        if m > j {
            let km = update_key(out[m]);
            let kj = update_key(out[j]);
            if km != kj {
                lemma_chars_less_total(km, kj);
            }
            if km != kj {
                lemma_chars_less_transitive(km, kj, update_key(r));
            }
        }
    }
    assert forall|k: int| 0 <= k < out2.len() implies #[trigger] out2[k] == in2[p2[k]] by {
        if k < j {
            assert(out2[k] == out[k]);
        } else if k > j {
            assert(out2[k] == out[k - 1]);
        }
    }
    assert forall|a: int, b: int| 0 <= a < b < out2.len() implies !chars_less(
        update_key(#[trigger] out2[a]),
        update_key(#[trigger] out2[b]),
    ) by {
        if a == j {
            assert(chars_less(update_key(out[b - 1]), update_key(r)));
            lemma_chars_less_asymmetric(update_key(out[b - 1]), update_key(r));
        } else if b == j {
        } else {
            let a0 = if a < j {
                a
            } else {
                a - 1
            };
            let b0 = if b < j {
                b
            } else {
                b - 1
            };
            assert(out2[a] == out[a0]);
            assert(out2[b] == out[b0]);
        }
    }
    assert forall|a: int, b: int|
        0 <= a < b < out2.len() && update_key(#[trigger] out2[a]) == update_key(
            #[trigger] out2[b],
        ) implies p2[a] < p2[b] by {
        if a == j {
            assert(chars_less(update_key(out[b - 1]), update_key(r)));
            lemma_chars_less_irreflexive(update_key(r));
        } else if b == j {
            assert(0 <= p[a] < n);
        } else {
            let a0 = if a < j {
                a
            } else {
                a - 1
            };
            let b0 = if b < j {
                b
            } else {
                b - 1
            };
            assert(out2[a] == out[a0]);
            assert(out2[b] == out[b0]);
        }
    }
    assert forall|k: int| 0 <= k < n + 1 implies 0 <= #[trigger] p2[k] < n + 1 by {
        if k < j {
            assert(p2[k] == p[k]);
        } else if k > j {
            assert(p2[k] == p[k - 1]);
        }
    }
    assert forall|a: int, b: int| 0 <= a < b < n + 1 implies p2[a] != p2[b] by {
        if a == j {
            assert(p2[b] == p[b - 1]);
        } else if b == j {
            assert(p2[a] == p[a]);
        } else {
            let a0 = if a < j {
                a
            } else {
                a - 1
            };
            let b0 = if b < j {
                b
            } else {
                b - 1
            };
            assert(p2[a] == p[a0]);
            assert(p2[b] == p[b0]);
        }
    }
    assert forall|m: int| 0 <= m < n + 1 implies #[trigger] covers(p2, m) by {
        if m == n {
            assert(p2[j] == m);
        } else {
            assert(covers(p, m));
            let k = choose|k: int| 0 <= k < p.len() && p[k] == m;
            if k < j {
                assert(p2[k] == m);
            } else {
                assert(p2[k + 1] == m);
            }
        }
    }
}

/// `Vec::sort_by(|a, b| b.updated_at.cmp(&a.updated_at))`: the newest update first,
/// equal times kept in their input order.
pub fn sort_repos(repos: Vec<Repo>) -> (sorted: Vec<Repo>)
    ensures
        newest_first(repos@, sorted@),
{
    let ghost orig = repos@;
    let n = repos.len();
    let mut rest = repos;
    let mut out: Vec<Repo> = Vec::new();
    let mut keys: Vec<Vec<char>> = Vec::new();
    let ghost mut p: Seq<int> = Seq::empty();
    let mut i: usize = 0;
    assert(orig.skip(0) =~= orig);
    assert(sorted_by_permutation(orig.take(0), out@, p));
    while i < n
        invariant
            n == orig.len(),
            i <= n,
            rest@ == orig.skip(i as int),
            keys@.len() == out@.len(),
            forall|k: int| 0 <= k < keys@.len() ==> #[trigger] keys@[k]@ == update_key(out@[k]),
            sorted_by_permutation(orig.take(i as int), out@, p),
        decreases n - i,
    {
        assert(rest@.len() > 0);
        let r = rest.remove(0);
        assert(r == orig[i as int]);
        assert(rest@ =~= orig.skip(i + 1));
        let kr = to_chars(r.updated_at.as_str());
        let mut j: usize = 0;
        while j < out.len() && !chars_less_exec(keys[j].as_slice(), kr.as_slice())
            invariant
                j <= out@.len(),
                keys@.len() == out@.len(),
                forall|k: int| 0 <= k < keys@.len() ==> #[trigger] keys@[k]@ == update_key(out@[k]),
                kr@ == update_key(r),
                forall|m: int|
                    0 <= m < j ==> !chars_less(update_key(#[trigger] out@[m]), update_key(r)),
            decreases out@.len() - j,
        {
            j = j + 1;
        }
        proof {
            if j < out@.len() {
                assert(keys@[j as int]@ == update_key(out@[j as int]));
            }
            lemma_insert_sorted(orig.take(i as int), out@, p, r, j as int);
            assert(orig.take(i as int).push(r) =~= orig.take(i + 1));
            p = p.insert(j as int, i as int);
        }
        let ghost old_keys = keys@;
        let ghost old_out = out@;
        out.insert(j, r);
        keys.insert(j, kr);
        assert forall|k: int| 0 <= k < keys@.len() implies #[trigger] keys@[k]@ == update_key(
            out@[k],
        ) by {
            if k < j {
                assert(keys@[k] == old_keys[k]);
                assert(out@[k] == old_out[k]);
            } else if k > j {
                assert(keys@[k] == old_keys[k - 1]);
                assert(out@[k] == old_out[k - 1]);
            }
        }
        i = i + 1;
    }
    assert(orig.take(n as int) =~= orig);
    out
}

/// Keeps the repositories that may be spun off, newest first: what the repository
/// list shows.
pub fn select_repos(all: Vec<Repo>) -> (listed: Vec<Repo>)
    ensures
        newest_first(all@.filter(selectable_pred()), listed@),
{
    let ghost orig = all@;
    let mut kept: Vec<Repo> = Vec::new();
    let mut rest = all;
    let n = rest.len();
    let mut i: usize = 0;
    assert(orig.skip(0) =~= orig);
    proof {
        reveal(Seq::filter);
        assert(orig.take(0).filter(selectable_pred()) =~= Seq::<Repo>::empty());
    }
    while i < n
        invariant
            n == orig.len(),
            i <= n,
            rest@ == orig.skip(i as int),
            kept@ == orig.take(i as int).filter(selectable_pred()),
        decreases n - i,
    {
        let r = rest.remove(0);
        assert(r == orig[i as int]);
        assert(rest@ =~= orig.skip(i + 1));
        proof {
            reveal(Seq::filter);
            assert(orig.take(i + 1).drop_last() =~= orig.take(i as int));
            assert(orig.take(i + 1).last() == r);
        }
        if repo_is_selectable(&r) {
            kept.push(r);
        }
        i = i + 1;
    }
    assert(orig.take(n as int) =~= orig);
    sort_repos(kept)
}

/// The repository list shows only repositories that may be spun off, and every one of
/// them.
pub proof fn law_listed_repos_are_exactly_the_selectable(all: Seq<Repo>, listed: Seq<Repo>)
    requires
        newest_first(all.filter(selectable_pred()), listed),
    ensures
        forall|k: int| 0 <= k < listed.len() ==> repo_selectable(#[trigger] listed[k]),
        forall|i: int| 0 <= i < all.len() && repo_selectable(all[i]) ==> listed.contains(all[i]),
{
    let f = all.filter(selectable_pred());
    let p = choose|p: Seq<int>| sorted_by_permutation(f, listed, p);
    assert forall|k: int| 0 <= k < listed.len() implies repo_selectable(#[trigger] listed[k]) by {
        assert(listed[k] == f[p[k]]);
        all.lemma_filter_pred(selectable_pred(), p[k]);
    }
    assert forall|i: int| 0 <= i < all.len() && repo_selectable(all[i]) implies listed.contains(
        all[i],
    ) by {
        all.lemma_filter_contains(selectable_pred(), i);
        let m = choose|m: int| 0 <= m < f.len() && f[m] == all[i];
        assert(covers(p, m));
        let k = choose|k: int| 0 <= k < p.len() && p[k] == m;
        assert(listed[k] == all[i]);
    }
}

/// In the listed order every repository was updated no earlier than the ones after it.
pub proof fn law_listed_repos_newest_first(input: Seq<Repo>, listed: Seq<Repo>)
    requires
        newest_first(input, listed),
    ensures
        listed.len() == input.len(),
        forall|a: int, b: int|
            0 <= a < b < listed.len() ==> update_key(listed[a]) == update_key(listed[b])
                || chars_less(update_key(listed[b]), update_key(listed[a])),
{
    let p = choose|p: Seq<int>| sorted_by_permutation(input, listed, p);
    assert forall|a: int, b: int| 0 <= a < b < listed.len() implies update_key(listed[a])
        == update_key(listed[b]) || chars_less(update_key(listed[b]), update_key(listed[a])) by {
        if update_key(listed[a]) != update_key(listed[b]) {
            lemma_chars_less_total(update_key(listed[a]), update_key(listed[b]));
        }
    }
}

pub open spec fn repos_page_url(page: nat) -> Seq<char> {
    "https://api.github.com/user/repos?per_page=100&page="@ + decimal(page)
        + "&sort=updated&direction=desc&affiliation=owner"@
}

/// Gathers the paged repository listing: pages 1, 2, ... are asked for until one
/// comes back empty.
pub struct RepoPager {
    pub page: u64,
    pub collected: Vec<Repo>,
}

impl RepoPager {
    pub fn new() -> (r: Self)
        ensures
            r.page == 1,
            r.collected@.len() == 0,
    {
        RepoPager { page: 1, collected: Vec::new() }
    }

    /// The address of the page to ask for next.
    pub fn page_url(&self) -> (url: String)
        ensures
            url@ == repos_page_url(self.page as nat),
    {
        let mut url = string_of("https://api.github.com/user/repos?per_page=100&page=");
        let digits = from_chars(decimal_chars(self.page).as_slice());
        url.append(digits.as_str());
        url.append("&sort=updated&direction=desc&affiliation=owner");
        url
    }

    /// Takes in one page; returns whether another page must be asked for.
    pub fn receive_page(&mut self, items: Vec<Repo>) -> (more: bool)
        requires
            old(self).page < u64::MAX,
        ensures
            more == (items@.len() > 0),
            more ==> final(self).collected@ == old(self).collected@ + items@ && final(self).page
                == old(self).page + 1,
            !more ==> final(self).collected@ == old(self).collected@ && final(self).page == old(
                self,
            ).page,
    {
        if items.len() == 0 {
            return false;
        }
        let mut items = items;
        self.collected.append(&mut items);
        self.page = self.page + 1;
        true
    }

    /// The listing once all pages are in: the selectable repositories, newest first.
    pub fn finish(self) -> (listed: Vec<Repo>)
        ensures
            newest_first(self.collected@.filter(selectable_pred()), listed@),
    {
        select_repos(self.collected)
    }
}

pub open spec fn readme_ja_url(full_name: Seq<char>) -> Seq<char> {
    "https://api.github.com/repos/"@ + full_name + "/contents/README.ja.md"@
}

pub open spec fn readme_url(full_name: Seq<char>) -> Seq<char> {
    "https://api.github.com/repos/"@ + full_name + "/contents/README.md"@
}

/// The two files asked for a README: `README.ja.md` first, `README.md` when that fails.
pub fn readme_urls(full_name: &str) -> (urls: (String, String))
    ensures
        urls.0@ == readme_ja_url(full_name@),
        urls.1@ == readme_url(full_name@),
{
    let mut primary = string_of("https://api.github.com/repos/");
    primary.append(full_name);
    primary.append("/contents/README.ja.md");
    let mut fallback = string_of("https://api.github.com/repos/");
    fallback.append(full_name);
    fallback.append("/contents/README.md");
    (primary, fallback)
}

impl ReadmeContent {
    /// The README fetched from `README.ja.md`, or from `README.md` when that request failed.
    pub fn fetched(primary_ok: bool, markdown: String) -> (r: ReadmeContent)
        ensures
            r.file_name@ == (if primary_ok {
                "README.ja.md"@
            } else {
                "README.md"@
            }),
            r.markdown == markdown,
    {
        if primary_ok {
            ReadmeContent { file_name: "README.ja.md", markdown }
        } else {
            ReadmeContent { file_name: "README.md", markdown }
        }
    }
}

/// Which README a request asks for: `README.ja.md` first, then `README.md`.
#[derive(Debug, Clone, Copy, PartialEq, Eq, Structural)]
pub enum ReadmeAttempt {
    Japanese,
    Plain,
}

/// What fetching a repository's README does after an answer.
pub enum ReadmeNext {
    /// Ask for `README.md` at this address.
    TryPlain(String),
    /// The README is fetched.
    Found(ReadmeContent),
    /// `README.md` was refused as well: the fetch fails.
    Missing,
}

/// The README fetch after the answer to `attempt` for `full_name`: `response` is the
/// text of a successful answer, `None` for one with an error status. A refused
/// `README.ja.md` is followed by a request for `README.md`; a refused `README.md` ends
/// the fetch; a successful answer is the README, labelled with the file it came from.
pub fn readme_after_response(full_name: &str, attempt: ReadmeAttempt, response: Option<String>) -> (r: ReadmeNext)
    ensures
        match (attempt, response) {
            (ReadmeAttempt::Japanese, Some(t)) => r matches ReadmeNext::Found(c) && c.file_name@
                == "README.ja.md"@ && c.markdown == t,
            (ReadmeAttempt::Japanese, None) => r matches ReadmeNext::TryPlain(u) && u@ == readme_url(
                full_name@,
            ),
            (ReadmeAttempt::Plain, Some(t)) => r matches ReadmeNext::Found(c) && c.file_name@
                == "README.md"@ && c.markdown == t,
            (ReadmeAttempt::Plain, None) => r is Missing,
        },
{
    match response {
        Some(text) => ReadmeNext::Found(ReadmeContent::fetched(attempt == ReadmeAttempt::Japanese, text)),
        None => match attempt {
            ReadmeAttempt::Japanese => {
                let (_primary, fallback) = readme_urls(full_name);
                ReadmeNext::TryPlain(fallback)
            },
            ReadmeAttempt::Plain => ReadmeNext::Missing,
        },
    }
}

pub open spec fn repo_lookup_url(login: Seq<char>, repo_name: Seq<char>) -> Seq<char> {
    "https://api.github.com/repos/"@ + login + "/"@ + repo_name
}

/// The address that tells whether `login/repo_name` already exists.
pub fn repo_lookup(login: &str, repo_name: &str) -> (url: String)
    ensures
        url@ == repo_lookup_url(login@, repo_name@),
{
    let mut url = string_of("https://api.github.com/repos/");
    url.append(login);
    url.append("/");
    url.append(repo_name);
    url
}

/// A repository name is free exactly when looking it up answers 404.
pub fn check_repo_name_available(status: u16) -> (available: bool)
    ensures
        available == (status == 404),
{
    status == 404
}

/// A token from the environment: `GH_TOKEN` first, then `GITHUB_TOKEN`, each only
/// when it is not blank.
pub fn token_from_env(gh_token: Option<String>, github_token: Option<String>) -> (r: Option<
    String,
>)
    ensures
        r == (if gh_token is Some && trim(gh_token->0@).len() > 0 {
            gh_token
        } else if github_token is Some && trim(github_token->0@).len() > 0 {
            github_token
        } else {
            None
        }),
{
    if let Some(v) = gh_token {
        if trim_str(v.as_str()).len() > 0 {
            return Some(v);
        }
    }
    if let Some(v) = github_token {
        if trim_str(v.as_str()).len() > 0 {
            return Some(v);
        }
    }
    None
}

/// Why no token could be had from `gh auth token`.
#[derive(Debug, Clone, Copy, PartialEq, Eq, Structural)]
pub enum TokenError {
    CommandFailed,
    Empty,
}

/// The token printed by `gh auth token`, trimmed.
pub fn token_from_gh_output(success: bool, stdout: &str) -> (r: Result<String, TokenError>)
    ensures
        !success ==> r == Err::<String, TokenError>(TokenError::CommandFailed),
        success && trim(stdout@).len() == 0 ==> r == Err::<String, TokenError>(
            TokenError::Empty,
        ),
        success && trim(stdout@).len() > 0 ==> r is Ok && r->Ok_0@ == trim(stdout@),
{
    if !success {
        return Err(TokenError::CommandFailed);
    }
    let t = trim_str(stdout);
    if t.len() == 0 {
        return Err(TokenError::Empty);
    }
    Ok(from_chars(t.as_slice()))
}

} // verus!
