//! The directory tree pane: the entries of a working copy listed depth first,
//! directories before files and each directory's entries by name, with `|-- ` and
//! `` `-- `` branches, `.git` left out, and the listing cut at a number of lines.
use vstd::prelude::*;

use crate::text::{chars_less, chars_less_exec, lemma_string_views_push, str_eq, string_of, string_views};

verus! {

broadcast use vstd::string::group_string_axioms;

/// An entry of a directory as read from disk: its name, whether it is a directory,
/// and (for a directory that was read) its own entries.
#[derive(Debug)]
pub struct FsEntry {
    pub name: String,
    pub is_dir: bool,
    pub children: Vec<FsEntry>,
}

/// Listing order: directories before files, then by name.
pub open spec fn entry_before(a: FsEntry, b: FsEntry) -> bool {
    (a.is_dir && !b.is_dir) || (a.is_dir == b.is_dir && chars_less(a.name@, b.name@))
}

/// `e` inserted into the sorted `sorted` after every entry it does not come before.
pub open spec fn insert_entry(sorted: Seq<FsEntry>, e: FsEntry) -> Seq<FsEntry>
    decreases sorted.len(),
{
    if sorted.len() == 0 {
        seq![e]
    } else if entry_before(e, sorted[0]) {
        seq![e] + sorted
    } else {
        seq![sorted[0]] + insert_entry(sorted.drop_first(), e)
    }
}

/// The entries sorted into listing order; entries that tie keep their order.
pub open spec fn sorted_entries(s: Seq<FsEntry>) -> Seq<FsEntry>
    decreases s.len(),
{
    if s.len() == 0 {
        s
    } else {
        insert_entry(sorted_entries(s.drop_last()), s.last())
    }
}

pub open spec fn not_git(e: FsEntry) -> bool {
    e.name@ != ".git"@
}

/// The entries of a directory that are listed, in listing order.
pub open spec fn listing_order(s: Seq<FsEntry>) -> Seq<FsEntry> {
    sorted_entries(s.filter(|e: FsEntry| not_git(e)))
}

/// How deep the tree under `e` goes.
pub open spec fn height(e: FsEntry) -> nat
    decreases e,
{
    1 + max_height(e.children@)
}

pub open spec fn max_height(s: Seq<FsEntry>) -> nat
    decreases s,
{
    if s.len() == 0 {
        0
    } else {
        let h = height(s[s.len() - 1]);
        let rest = max_height(s.subrange(0, s.len() - 1));
        if h > rest {
            h
        } else {
            rest
        }
    }
}

pub proof fn lemma_max_height_member(s: Seq<FsEntry>, x: FsEntry)
    requires
        s.contains(x),
    ensures
        height(x) <= max_height(s),
    decreases s.len(),
{
    if s[s.len() - 1] != x {
        let i = choose|i: int| 0 <= i < s.len() && s[i] == x;
        assert(s.subrange(0, s.len() - 1)[i] == x);
        lemma_max_height_member(s.subrange(0, s.len() - 1), x);
    }
}

pub proof fn lemma_max_height_subset(t: Seq<FsEntry>, s: Seq<FsEntry>)
    requires
        forall|x: FsEntry| t.contains(x) ==> s.contains(x),
    ensures
        max_height(t) <= max_height(s),
    decreases t.len(),
{
    if t.len() > 0 {
        let d = t.subrange(0, t.len() - 1);
        assert(t.contains(t[t.len() - 1]));
        lemma_max_height_member(s, t[t.len() - 1]);
        assert forall|x: FsEntry| d.contains(x) implies s.contains(x) by {
            let i = choose|i: int| 0 <= i < d.len() && d[i] == x;
            assert(t[i] == x);
        }
        lemma_max_height_subset(d, s);
    }
}

pub proof fn lemma_insert_entry_members(s: Seq<FsEntry>, e: FsEntry, x: FsEntry)
    requires
        insert_entry(s, e).contains(x),
    ensures
        x == e || s.contains(x),
    decreases s.len(),
{
    if s.len() > 0 && !entry_before(e, s[0]) {
        let r = insert_entry(s.drop_first(), e);
        let i = choose|i: int| 0 <= i < insert_entry(s, e).len() && insert_entry(s, e)[i] == x;
        if i > 0 {
            assert(r[i - 1] == x);
            lemma_insert_entry_members(s.drop_first(), e, x);
            if x != e {
                let j = choose|j: int| 0 <= j < s.drop_first().len() && s.drop_first()[j] == x;
                assert(s[j + 1] == x);
            }
        } else {
            assert(s[0] == x);
        }
    } else if s.len() > 0 {
        let i = choose|i: int| 0 <= i < insert_entry(s, e).len() && insert_entry(s, e)[i] == x;
        if i > 0 {
            assert(s[i - 1] == x);
        }
    }
}

pub proof fn lemma_sorted_entries_members(s: Seq<FsEntry>, x: FsEntry)
    requires
        sorted_entries(s).contains(x),
    ensures
        s.contains(x),
    decreases s.len(),
{
    if s.len() > 0 {
        lemma_insert_entry_members(sorted_entries(s.drop_last()), s.last(), x);
        if x != s.last() {
            lemma_sorted_entries_members(s.drop_last(), x);
            let i = choose|i: int| 0 <= i < s.drop_last().len() && s.drop_last()[i] == x;
            assert(s[i] == x);
        }
    }
}

/// The entries of a directory in listing order are entries of that directory, so
/// the tree below any of them is lower than the tree below the directory.
pub proof fn lemma_listing_order_lower(s: Seq<FsEntry>)
    ensures
        max_height(listing_order(s)) <= max_height(s),
{
    let f = s.filter(|e: FsEntry| not_git(e));
    assert forall|x: FsEntry| listing_order(s).contains(x) implies s.contains(x) by {
        lemma_sorted_entries_members(f, x);
        s.lemma_filter_contains_rev(|e: FsEntry| not_git(e), x);
    }
    lemma_max_height_subset(listing_order(s), s);
}

pub open spec fn branch(is_root: bool, is_last: bool) -> Seq<char> {
    if is_root {
        Seq::empty()
    } else if is_last {
        "`-- "@
    } else {
        "|-- "@
    }
}

pub open spec fn child_prefix(prefix: Seq<char>, is_root: bool, is_last: bool) -> Seq<char> {
    if is_root {
        Seq::empty()
    } else if is_last {
        prefix + "    "@
    } else {
        prefix + "|   "@
    }
}

/// The line of one entry: prefix, branch, name, and `/` after a directory.
pub open spec fn entry_line(e: FsEntry, prefix: Seq<char>, is_root: bool, is_last: bool) -> Seq<char> {
    prefix + branch(is_root, is_last) + e.name@ + (if e.is_dir {
        "/"@
    } else {
        Seq::empty()
    })
}

/// The lines of `entries` (one directory, in listing order) from position `i` on,
/// each directory followed by the lines of its own entries.
pub open spec fn listing_from(entries: Seq<FsEntry>, i: int, prefix: Seq<char>, is_root: bool) -> Seq<
    Seq<char>,
>
    decreases max_height(entries), entries.len() - i,
{
    if i < 0 || i >= entries.len() {
        Seq::empty()
    } else {
        let e = entries[i];
        let last = i + 1 == entries.len();
        let sub = if e.is_dir {
            proof {
                lemma_listing_order_lower(e.children@);
                assert(entries.contains(e));
                lemma_max_height_member(entries, e);
            }
            listing_from(listing_order(e.children@), 0, child_prefix(prefix, is_root, last), false)
        } else {
            Seq::empty()
        };
        seq![entry_line(e, prefix, is_root, last)] + sub + listing_from(entries, i + 1, prefix, is_root)
    }
}

/// `s` cut to at most `limit` lines.
pub open spec fn capped(s: Seq<Seq<char>>, limit: nat) -> Seq<Seq<char>> {
    if s.len() > limit {
        s.take(limit as int)
    } else {
        s
    }
}

/// `acc` with `more` appended as far as `limit` lines allow; an `acc` already at the
/// limit stays as it is.
pub open spec fn appended_capped(acc: Seq<Seq<char>>, more: Seq<Seq<char>>, limit: nat) -> Seq<
    Seq<char>,
> {
    if acc.len() >= limit {
        acc
    } else {
        capped(acc + more, limit)
    }
}

proof fn lemma_appended_capped_compose(a: Seq<Seq<char>>, x: Seq<Seq<char>>, y: Seq<Seq<char>>, limit: nat)
    ensures
        appended_capped(appended_capped(a, x, limit), y, limit) == appended_capped(a, x + y, limit),
{
    if a.len() < limit {
        assert(a + (x + y) =~= (a + x) + y);
        if (a + x).len() > limit {
            assert(((a + x) + y).take(limit as int) =~= (a + x).take(limit as int));
        }
    }
}

/// The directory tree pane of a directory whose entries are `entries`, cut at
/// `limit` lines; `(empty)` when there is nothing to list.
pub open spec fn files_listing(entries: Seq<FsEntry>, limit: nat) -> Seq<Seq<char>> {
    let l = capped(listing_from(listing_order(entries), 0, Seq::empty(), true), limit);
    if l.len() == 0 {
        seq!["(empty)"@]
    } else {
        l
    }
}

/// A directory never lists an entry named `.git`, at any depth: each directory's
/// listed entries are its own entries other than `.git`.
pub proof fn law_listing_leaves_out_git(s: Seq<FsEntry>, x: FsEntry)
    requires
        listing_order(s).contains(x),
    ensures
        x.name@ != ".git"@,
        s.contains(x),
{
    let f = s.filter(|e: FsEntry| not_git(e));
    lemma_sorted_entries_members(f, x);
    s.lemma_filter_contains_rev(|e: FsEntry| not_git(e), x);
}

/// The tree pane has at least one line and at most `limit` of them (one, `(empty)`,
/// when nothing is listed, whatever the limit).
pub proof fn law_listing_line_bounds(entries: Seq<FsEntry>, limit: nat)
    ensures
        1 <= files_listing(entries, limit).len(),
        files_listing(entries, limit).len() <= if limit > 1 {
            limit
        } else {
            1
        },
        capped(listing_from(listing_order(entries), 0, Seq::empty(), true), limit).len() == 0
            ==> files_listing(entries, limit) == seq!["(empty)"@],
{
}

fn entry_before_exec(a: &FsEntry, b: &FsEntry) -> (r: bool)
    ensures
        r == entry_before(*a, *b),
{
    if a.is_dir && !b.is_dir {
        return true;
    }
    if a.is_dir != b.is_dir {
        return false;
    }
    let an = crate::text::to_chars(a.name.as_str());
    let bn = crate::text::to_chars(b.name.as_str());
    chars_less_exec(an.as_slice(), bn.as_slice())
}

pub open spec fn entries_at(entries: Seq<FsEntry>, order: Seq<usize>) -> Seq<FsEntry> {
    order.map_values(|j: usize| entries[j as int])
}

proof fn lemma_insert_entry_at(s: Seq<FsEntry>, e: FsEntry, p: int)
    requires
        0 <= p <= s.len(),
        forall|q: int| 0 <= q < p ==> !entry_before(e, #[trigger] s[q]),
        p < s.len() ==> entry_before(e, s[p]),
    ensures
        insert_entry(s, e) == s.take(p).push(e) + s.skip(p),
    decreases p,
{
    if p == 0 {
        if s.len() == 0 {
            assert(s.take(0).push(e) + s.skip(0) =~= seq![e]);
        } else {
            assert(s.take(0).push(e) + s.skip(0) =~= seq![e] + s);
        }
    } else {
        let d = s.drop_first();
        assert forall|q: int| 0 <= q < p - 1 implies !entry_before(e, #[trigger] d[q]) by {
            assert(d[q] == s[q + 1]);
        }
        assert(!entry_before(e, s[0]));
        lemma_insert_entry_at(d, e, p - 1);
        assert(seq![s[0]] + (d.take(p - 1).push(e) + d.skip(p - 1)) =~= s.take(p).push(e) + s.skip(p));
    }
}

/// The positions of the listed entries of a directory, in listing order.
pub fn listing_positions(entries: &Vec<FsEntry>) -> (order: Vec<usize>)
    ensures
        entries_at(entries@, order@) == listing_order(entries@),
        forall|k: int| 0 <= k < order@.len() ==> #[trigger] order@[k] < entries@.len(),
{
    let ghost pred = |e: FsEntry| not_git(e);
    let mut visible: Vec<usize> = Vec::new();
    let mut i: usize = 0;
    proof {
        reveal(Seq::filter);
        assert(entries@.take(0).filter(pred) =~= Seq::<FsEntry>::empty());
        assert(entries_at(entries@, visible@) =~= Seq::<FsEntry>::empty());
    }
    while i < entries.len()
        invariant
            i <= entries@.len(),
            pred == (|e: FsEntry| not_git(e)),
            entries_at(entries@, visible@) == entries@.take(i as int).filter(pred),
            forall|k: int| 0 <= k < visible@.len() ==> #[trigger] visible@[k] < i,
        decreases entries@.len() - i,
    {
        proof {
            reveal(Seq::filter);
            assert(entries@.take(i + 1).drop_last() =~= entries@.take(i as int));
        }
        if !str_eq(entries[i].name.as_str(), ".git") {
            visible.push(i);
            assert(entries_at(entries@, visible@) =~= entries_at(entries@, visible@.drop_last()).push(
                entries@[i as int],
            ));
        }
        i = i + 1;
    }
    proof {
        assert(entries@.take(entries@.len() as int) =~= entries@);
    }
    let ghost vis = entries_at(entries@, visible@);
    let mut order: Vec<usize> = Vec::new();
    let mut k: usize = 0;
    proof {
        assert(vis.take(0) =~= Seq::<FsEntry>::empty());
        assert(entries_at(entries@, order@) =~= Seq::<FsEntry>::empty());
    }
    while k < visible.len()
        invariant
            k <= visible@.len(),
            vis == entries_at(entries@, visible@),
            forall|m: int| 0 <= m < visible@.len() ==> #[trigger] visible@[m] < entries@.len(),
            forall|m: int| 0 <= m < order@.len() ==> #[trigger] order@[m] < entries@.len(),
            entries_at(entries@, order@) == sorted_entries(vis.take(k as int)),
        decreases visible@.len() - k,
    {
        let e = &entries[visible[k]];
        let ghost sorted = entries_at(entries@, order@);
        let mut p: usize = 0;
        while p < order.len() && !entry_before_exec(e, &entries[order[p]])
            invariant
                p <= order@.len(),
                sorted == entries_at(entries@, order@),
                forall|m: int| 0 <= m < order@.len() ==> #[trigger] order@[m] < entries@.len(),
                forall|q: int| 0 <= q < p ==> !entry_before(*e, #[trigger] sorted[q]),
            decreases order@.len() - p,
        {
            p = p + 1;
        }
        proof {
            lemma_insert_entry_at(sorted, *e, p as int);
            assert(vis.take(k + 1).drop_last() =~= vis.take(k as int));
            assert(vis.take(k + 1).last() == *e);
        }
        order.insert(p, visible[k]);
        assert(entries_at(entries@, order@) =~= sorted.take(p as int).push(*e) + sorted.skip(p as int));
        k = k + 1;
    }
    proof {
        assert(vis.take(visible@.len() as int) =~= vis);
    }
    order
}

fn concat3(a: &str, b: &str, c: &str) -> (r: String)
    ensures
        r@ == a@ + b@ + c@,
{
    let mut r = string_of(a);
    r.append(b);
    r.append(c);
    r
}

fn collect_impl(entries: &Vec<FsEntry>, prefix: &String, is_root: bool, limit: usize, acc: &mut Vec<String>)
    ensures
        string_views(final(acc)@) == appended_capped(
            string_views(old(acc)@),
            listing_from(listing_order(entries@), 0, prefix@, is_root),
            limit as nat,
        ),
    decreases max_height(entries@),
{
    if acc.len() >= limit {
        return;
    }
    let order = listing_positions(entries);
    let ghost lo = listing_order(entries@);
    let ghost start = string_views(acc@);
    let n = order.len();
    let mut i: usize = 0;
    proof {
        lemma_listing_order_lower(entries@);
    }
    while i < n
        invariant_except_break
            i <= n,
            n == order@.len(),
            lo == listing_order(entries@),
            entries_at(entries@, order@) == lo,
            forall|k: int| 0 <= k < order@.len() ==> #[trigger] order@[k] < entries@.len(),
            max_height(lo) <= max_height(entries@),
            appended_capped(string_views(acc@), listing_from(lo, i as int, prefix@, is_root), limit as nat)
                == appended_capped(start, listing_from(lo, 0, prefix@, is_root), limit as nat),
        ensures
            string_views(acc@) == appended_capped(start, listing_from(lo, 0, prefix@, is_root), limit as nat),
        decreases n - i,
    {
        if acc.len() >= limit {
            break;
        }
        let e = &entries[order[i]];
        let is_last = i + 1 == n;
        let branch_text = if is_root {
            ""
        } else if is_last {
            "`-- "
        } else {
            "|-- "
        };
        let suffix = if e.is_dir {
            "/"
        } else {
            ""
        };
        let mut line = concat3(prefix.as_str(), branch_text, e.name.as_str());
        line.append(suffix);
        proof {
            reveal_strlit("");
            assert(lo[i as int] == *e);
            assert(line@ =~= entry_line(*e, prefix@, is_root, is_last));
        }
        let ghost before = acc@;
        let ghost written: String = line;
        acc.push(line);
        proof {
            lemma_string_views_push(before, written);
            assert(string_views(acc@) == appended_capped(string_views(before), seq![written@], limit as nat)) by {
                assert(string_views(before) + seq![written@] =~= string_views(before).push(written@));
            }
        }
        let ghost after_line = acc@;
        let ghost sub = if e.is_dir {
            listing_from(listing_order(e.children@), 0, child_prefix(prefix@, is_root, is_last), false)
        } else {
            Seq::<Seq<char>>::empty()
        };
        if e.is_dir {
            let child = if is_root {
                String::new()
            } else if is_last {
                concat3(prefix.as_str(), "    ", "")
            } else {
                concat3(prefix.as_str(), "|   ", "")
            };
            proof {
                reveal_strlit("");
                assert(child@ =~= child_prefix(prefix@, is_root, is_last));
                assert(entries@.contains(*e));
                lemma_max_height_member(entries@, *e);
            }
            collect_impl(&e.children, &child, false, limit, acc);
        } else {
            proof {
                assert(appended_capped(string_views(acc@), sub, limit as nat) =~= string_views(acc@));
            }
        }
        proof {
            let rest = listing_from(lo, i + 1, prefix@, is_root);
            let one = seq![entry_line(*e, prefix@, is_root, is_last)];
            assert(listing_from(lo, i as int, prefix@, is_root) == one + sub + rest);
            lemma_appended_capped_compose(string_views(before), one, sub, limit as nat);
            lemma_appended_capped_compose(string_views(before), one + sub, rest, limit as nat);
            if !e.is_dir {
                assert(string_views(acc@) == appended_capped(string_views(after_line), sub, limit as nat));
            }
            lemma_appended_capped_compose(string_views(after_line), sub, rest, limit as nat);
        }
        i = i + 1;
    }
    proof {
        if i >= n {
            assert(listing_from(lo, i as int, prefix@, is_root) == Seq::<Seq<char>>::empty());
            assert(string_views(acc@) + Seq::<Seq<char>>::empty() =~= string_views(acc@));
        }
    }
}

/// The directory tree pane for a directory whose entries are `entries`: at most
/// `limit` lines, `(empty)` when nothing is listed.
pub fn collect_files(entries: &Vec<FsEntry>, limit: usize) -> (lines: Vec<String>)
    ensures
        string_views(lines@) == files_listing(entries@, limit as nat),
{
    let mut acc: Vec<String> = Vec::new();
    let root = String::new();
    collect_impl(entries, &root, true, limit, &mut acc);
    proof {
        let l = listing_from(listing_order(entries@), 0, Seq::empty(), true);
        assert(string_views(Seq::<String>::empty()) =~= Seq::<Seq<char>>::empty());
        assert(Seq::<Seq<char>>::empty() + l =~= l);
    }
    if acc.len() == 0 {
        let ghost before = acc@;
        let e = string_of("(empty)");
        let ghost written: String = e;
        acc.push(e);
        proof {
            lemma_string_views_push(before, written);
            assert(string_views(before) =~= Seq::<Seq<char>>::empty());
            assert(string_views(acc@) =~= seq!["(empty)"@]);
        }
    }
    acc
}

} // verus!
