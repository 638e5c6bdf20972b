//! The introduction the spin-off writes at the top of `README.ja.md`: a header with
//! the new repository's name and a fixed message. Renaming replaces it; it never
//! stacks up.
use vstd::prelude::*;

use crate::models::README_MESSAGE;
use crate::text::{
    chars_eq, ends_with, extend_chars, from_chars, is_blank, join, lemma_join_push, lemma_lines_step, lines,
    newline_pred, split_lines, starts_with, starts_with_chars, strip_cr, find_char, to_chars,
    trim, trim_chars, trim_start_newline_chars, trim_start_newlines, leading_count,
    lemma_find_char_bound, lemma_leading_count_bound, lemma_leading_count,
};

verus! {

broadcast use vstd::string::group_string_axioms;

/// The first index from `i` on whose line is not blank (or `ls.len()`).
pub open spec fn skip_blank(ls: Seq<Seq<char>>, i: int) -> int
    decreases ls.len() - i,
{
    if 0 <= i < ls.len() && trim(ls[i]).len() == 0 {
        skip_blank(ls, i + 1)
    } else {
        i
    }
}

/// Where an introduction at the top of `ls` ends: a `# ` header, blank lines, the
/// message, blank lines, and optionally a ``元repo: ` `` line with the blank lines after
/// it. `-1` when `ls` does not start with one.
pub open spec fn intro_end(ls: Seq<Seq<char>>) -> int {
    if ls.len() == 0 || !starts_with(ls[0], "# "@) {
        -1
    } else {
        let i = skip_blank(ls, 1);
        if i >= ls.len() || trim(ls[i]) != README_MESSAGE@ {
            -1
        } else {
            let i2 = skip_blank(ls, i + 1);
            if i2 < ls.len() && starts_with(trim(ls[i2]), "元repo: `"@) {
                skip_blank(ls, i2 + 1)
            } else {
                i2
            }
        }
    }
}

/// Removes every introduction at the top of `rest`, one after the other.
pub open spec fn strip_intros(rest: Seq<char>) -> Seq<char>
    decreases rest.len(),
{
    let ls = lines(rest);
    let e = intro_end(ls);
    if e < 0 {
        rest
    } else {
        proof {
            lemma_intro_end_bounds(ls);
            lemma_join_lines_shorter(rest, e);
            lemma_trim_start_newlines_len(join(ls.skip(e), "\n"@));
        }
        strip_intros(trim_start_newlines(join(ls.skip(e), "\n"@)))
    }
}

/// The introduction for `name`.
pub open spec fn intro(name: Seq<char>) -> Seq<char> {
    "# "@ + name + "\n\n"@ + README_MESSAGE@
}

/// What follows the introduction once the old ones are removed.
pub open spec fn readme_tail(old: Seq<char>) -> Seq<char> {
    trim_start_newlines(strip_intros(trim_start_newlines(old)))
}

/// `README.ja.md` after renaming to `name`: the introduction, then the rest of the old
/// file; a missing file gets the introduction alone. A trailing line break of the old
/// file is kept.
pub open spec fn updated_readme(old: Option<Seq<char>>, name: Seq<char>) -> Seq<char> {
    match old {
        Some(o) => {
            let tail = readme_tail(o);
            let body = if tail.len() == 0 {
                intro(name)
            } else {
                intro(name) + "\n\n"@ + tail
            };
            if o.len() > 0 && o.last() == '\n' {
                body.push('\n')
            } else {
                body
            }
        },
        None => intro(name) + "\n"@,
    }
}

// ---------------------------------------------------------------------------
// Lemmas
// ---------------------------------------------------------------------------

pub proof fn lemma_skip_blank_bounds(ls: Seq<Seq<char>>, i: int)
    requires
        0 <= i,
    ensures
        i <= skip_blank(ls, i),
        i <= ls.len() ==> skip_blank(ls, i) <= ls.len(),
    decreases ls.len() - i,
{
    if 0 <= i < ls.len() && trim(ls[i]).len() == 0 {
        lemma_skip_blank_bounds(ls, i + 1);
    }
}

pub proof fn lemma_intro_end_bounds(ls: Seq<Seq<char>>)
    ensures
        intro_end(ls) >= 0 ==> 1 <= intro_end(ls) <= ls.len(),
{
    if ls.len() > 0 && starts_with(ls[0], "# "@) {
        lemma_skip_blank_bounds(ls, 1);
        let i = skip_blank(ls, 1);
        if i < ls.len() {
            lemma_skip_blank_bounds(ls, i + 1);
            let i2 = skip_blank(ls, i + 1);
            if i2 < ls.len() {
                lemma_skip_blank_bounds(ls, i2 + 1);
            }
        }
    }
}

pub proof fn lemma_trim_start_newlines_len(s: Seq<char>)
    ensures
        trim_start_newlines(s).len() <= s.len(),
{
    lemma_leading_count_bound(s, newline_pred());
}

pub proof fn lemma_join_prepend(a: Seq<char>, rest: Seq<Seq<char>>, sep: Seq<char>)
    ensures
        join(seq![a] + rest, sep) == if rest.len() == 0 {
            a
        } else {
            a + sep + join(rest, sep)
        },
    decreases rest.len(),
{
    assert(join(seq![a], sep) == a);
    if rest.len() == 0 {
        assert(seq![a] + rest =~= seq![a]);
    } else if rest.len() == 1 {
        assert((seq![a] + rest).drop_last() =~= seq![a]);
        assert((seq![a] + rest).last() == rest[0]);
        assert(join(rest, sep) == rest[0]);
    } else {
        lemma_join_prepend(a, rest.drop_last(), sep);
        assert((seq![a] + rest).drop_last() =~= seq![a] + rest.drop_last());
        assert(join(seq![a] + rest, sep) == join(seq![a] + rest.drop_last(), sep) + sep
            + rest.last());
        assert((seq![a] + rest).last() == rest.last());
        assert(join(rest, sep) == join(rest.drop_last(), sep) + sep + rest.last());
        assert(a + sep + join(rest, sep) =~= a + sep + join(rest.drop_last(), sep) + sep
            + rest.last());
    }
}

/// Joining the lines of a text from line `m` on never gives more characters than the text had.
pub proof fn lemma_join_lines_at_most(s: Seq<char>, m: int)
    requires
        0 <= m <= lines(s).len(),
    ensures
        join(lines(s).skip(m), "\n"@).len() <= s.len(),
    decreases s.len(),
{
    reveal_strlit("\n");
    let ls = lines(s);
    if s.len() == 0 {
        assert(ls.skip(m) =~= Seq::<Seq<char>>::empty());
    } else {
        lemma_find_char_bound(s, '\n');
        let k = find_char(s, '\n');
        if k < 0 {
            if m == 0 {
                assert(ls.skip(m) =~= seq![s]);
            } else {
                assert(ls.skip(m) =~= Seq::<Seq<char>>::empty());
            }
        } else {
            let t = s.skip(k + 1);
            let a = strip_cr(s.take(k));
            let l2 = lines(t);
            assert(ls == seq![a] + l2);
            if m == 0 {
                assert(ls.skip(0) =~= seq![a] + l2);
                lemma_join_prepend(a, l2, "\n"@);
                lemma_join_lines_at_most(t, 0);
                assert(l2.skip(0) =~= l2);
            } else {
                assert(ls.skip(m) =~= l2.skip(m - 1));
                lemma_join_lines_at_most(t, m - 1);
            }
        }
    }
}

/// Dropping at least the first line makes the text strictly shorter.
pub proof fn lemma_join_lines_shorter(s: Seq<char>, m: int)
    requires
        1 <= m <= lines(s).len(),
        s.len() > 0,
    ensures
        join(lines(s).skip(m), "\n"@).len() < s.len(),
{
    let ls = lines(s);
    lemma_find_char_bound(s, '\n');
    let k = find_char(s, '\n');
    if k < 0 {
        assert(ls.skip(m) =~= Seq::<Seq<char>>::empty());
    } else {
        let t = s.skip(k + 1);
        assert(ls.skip(m) =~= lines(t).skip(m - 1));
        lemma_join_lines_at_most(t, m - 1);
    }
}

pub proof fn lemma_trim_start_newlines_idempotent(s: Seq<char>)
    ensures
        trim_start_newlines(trim_start_newlines(s)) == trim_start_newlines(s),
{
    let t = trim_start_newlines(s);
    lemma_leading_count_bound(s, newline_pred());
    let n = leading_count(s, newline_pred());
    if n < s.len() {
        assert(t[0] == s[n as int]);
        lemma_leading_count(t, newline_pred(), 0);
    } else {
        lemma_leading_count(t, newline_pred(), 0);
    }
    assert(t.skip(0) =~= t);
}

/// Stripping leaves a text that starts with no introduction and no line break.
pub proof fn lemma_strip_intros_result(rest: Seq<char>)
    requires
        trim_start_newlines(rest) == rest,
    ensures
        intro_end(lines(strip_intros(rest))) < 0,
        trim_start_newlines(strip_intros(rest)) == strip_intros(rest),
    decreases rest.len(),
{
    let ls = lines(rest);
    let e = intro_end(ls);
    if e >= 0 {
        lemma_intro_end_bounds(ls);
        lemma_join_lines_shorter(rest, e);
        let next = join(ls.skip(e), "\n"@);
        lemma_trim_start_newlines_len(next);
        lemma_trim_start_newlines_idempotent(next);
        lemma_strip_intros_result(trim_start_newlines(next));
    }
}

/// After renaming, `README.ja.md` begins with exactly one introduction: the header with
/// the new name and the message, and what follows it starts with no other introduction.
pub proof fn law_rename_leaves_single_intro(old: Option<Seq<char>>, name: Seq<char>)
    ensures
        starts_with(updated_readme(old, name), intro(name)),
        old is Some ==> intro_end(lines(readme_tail(old->0))) < 0,
{
    let out = updated_readme(old, name);
    let h = intro(name);
    match old {
        Some(o) => {
            let r = trim_start_newlines(o);
            lemma_trim_start_newlines_idempotent(o);
            lemma_strip_intros_result(r);
            let tail = readme_tail(o);
            let body = if tail.len() == 0 {
                h
            } else {
                h + "\n\n"@ + tail
            };
            assert(body.subrange(0, h.len() as int) =~= h);
            if o.len() > 0 && o.last() == '\n' {
                assert(body.push('\n').subrange(0, h.len() as int) =~= h);
            }
        },
        None => {
            assert((h + "\n"@).subrange(0, h.len() as int) =~= h);
        },
    }
}

/// The message line of an introduction is not blank and is its own trim.
proof fn lemma_message_trimmed()
    ensures
        trim(README_MESSAGE@) == README_MESSAGE@,
        README_MESSAGE@.len() > 0,
        forall|j: int| 0 <= j < README_MESSAGE@.len() ==> #[trigger] README_MESSAGE@[j] != '\n',
        README_MESSAGE@.last() != '\r',
{
    reveal_strlit("元repoからcloneして暖簾分けしました。暖簾分け断面までの履歴を持っています。");
    let m = README_MESSAGE@;
    assert(!crate::text::is_ws(m[0]));
    assert(!crate::text::is_ws(m.last()));
    assert(crate::text::leading_count(m, crate::text::ws_pred()) == 0);
    assert(m.skip(0) =~= m);
    assert(crate::text::trailing_count(m, crate::text::ws_pred()) == 0);
    assert(m.take(m.len() as int) =~= m);
}

/// The lines of an introduction for a name without line breaks: the header, a blank
/// line and the message (a final line break adds no line).
proof fn lemma_intro_lines(a: Seq<char>, s: Seq<char>)
    requires
        forall|j: int| 0 <= j < a.len() ==> #[trigger] a[j] != '\n',
        s == intro(a) || s == intro(a) + "\n"@,
    ensures
        lines(s) == seq![strip_cr("# "@ + a), Seq::<char>::empty(), README_MESSAGE@],
{
    reveal_strlit("# ");
    reveal_strlit("\n\n");
    reveal_strlit("\n");
    lemma_message_trimmed();
    let m = README_MESSAGE@;
    let p: int = 2 + a.len() as int;
    let e: int = p + 2 + m.len() as int;
    assert(s.len() >= e);
    assert forall|j: int| 0 <= j < p implies #[trigger] s[j] != '\n' by {
        if j >= 2 {
            assert(s[j] == a[j - 2]);
        }
    }
    assert(s[p] == '\n');
    assert(s[p + 1] == '\n');
    assert forall|j: int| p + 2 <= j < e implies #[trigger] s[j] != '\n' by {
        assert(s[j] == m[j - p - 2]);
    }
    assert(s.skip(0) =~= s);
    lemma_lines_step(s, 0, p);
    assert(s.subrange(0, p) =~= "# "@ + a);
    lemma_lines_step(s, p + 1, p + 1);
    assert(s.subrange(p + 1, p + 1) =~= Seq::<char>::empty());
    if s.len() > e {
        assert(s[e] == '\n');
        lemma_lines_step(s, p + 2, e);
        assert(s.skip(e + 1) =~= Seq::<char>::empty());
    } else {
        crate::text::lemma_lines_last(s, p + 2);
        assert(s.skip(p + 2) =~= m);
    }
    assert(s.subrange(p + 2, e) =~= m);
    assert(strip_cr(Seq::<char>::empty()) == Seq::<char>::empty());
    assert(strip_cr(m) == m);
}

/// A README that is only an introduction (as the spin-off writes one for a repository
/// that had none) is recognised as one: renaming replaces it with the introduction for
/// the new name, instead of stacking a second one on top.
pub proof fn law_rename_replaces_a_bare_intro(a: Seq<char>, b: Seq<char>)
    requires
        forall|j: int| 0 <= j < a.len() ==> #[trigger] a[j] != '\n',
    ensures
        updated_readme(Some(intro(a) + "\n"@), b) == intro(b) + "\n"@,
        updated_readme(Some(intro(a)), b) == intro(b),
{
    reveal_strlit("# ");
    reveal_strlit("\n");
    lemma_message_trimmed();
    lemma_bare_intro_tail(a, intro(a) + "\n"@);
    lemma_bare_intro_tail(a, intro(a));
    let o = intro(a) + "\n"@;
    assert(o.last() == '\n');
    assert(intro(b).push('\n') =~= intro(b) + "\n"@);
    assert(intro(a).last() == README_MESSAGE@.last());
}

proof fn lemma_bare_intro_tail(a: Seq<char>, s: Seq<char>)
    requires
        forall|j: int| 0 <= j < a.len() ==> #[trigger] a[j] != '\n',
        s == intro(a) || s == intro(a) + "\n"@,
    ensures
        readme_tail(s) == Seq::<char>::empty(),
{
    reveal_strlit("# ");
    lemma_message_trimmed();
    lemma_intro_lines(a, s);
    let ls = lines(s);
    assert(s[0] == '#');
    assert(trim_start_newlines(s) == s) by {
        lemma_leading_count(s, newline_pred(), 0);
        assert(s.skip(0) =~= s);
    }
    let h = strip_cr("# "@ + a);
    assert(starts_with(h, "# "@)) by {
        assert(("# "@ + a).len() >= 2);
        assert(h.subrange(0, 2) =~= "# "@);
    }
    assert(trim(ls[1]).len() == 0) by {
        assert(ls[1] == Seq::<char>::empty());
    }
    assert(skip_blank(ls, 3) == 3);
    assert(skip_blank(ls, 2) == 2);
    assert(skip_blank(ls, 1) == 2);
    assert(intro_end(ls) == 3);
    assert(ls.skip(3) =~= Seq::<Seq<char>>::empty());
    let j = join(ls.skip(3), "\n"@);
    assert(j == Seq::<char>::empty());
    assert(trim_start_newlines(j) =~= Seq::<char>::empty());
    assert(lines(Seq::<char>::empty()) == Seq::<Seq<char>>::empty());
    assert(strip_intros(Seq::<char>::empty()) == Seq::<char>::empty());
    assert(strip_intros(s) == Seq::<char>::empty());
    assert(trim_start_newlines(Seq::<char>::empty()) =~= Seq::<char>::empty());
}

/// `s` is empty or does not end in a line break.
pub open spec fn no_final_newline(s: Seq<char>) -> bool {
    s.len() == 0 || s.last() != '\n'
}

proof fn lemma_lines_last_char(s: Seq<char>)
    requires
        s.len() > 0,
        s.last() != '\n',
    ensures
        lines(s).len() > 0,
        lines(s).last().len() > 0,
        lines(s).last().last() == s.last(),
    decreases s.len(),
{
    lemma_find_char_bound(s, '\n');
    let k = find_char(s, '\n');
    if k >= 0 {
        let rest = s.skip(k + 1);
        assert(k < s.len() - 1);
        assert(rest.last() == s.last());
        lemma_lines_last_char(rest);
    }
}

proof fn lemma_join_last_char(parts: Seq<Seq<char>>, sep: Seq<char>)
    requires
        parts.len() > 0,
        parts.last().len() > 0,
    ensures
        join(parts, sep).len() > 0,
        join(parts, sep).last() == parts.last().last(),
{
}

proof fn lemma_trim_start_newlines_keeps_end(s: Seq<char>)
    requires
        no_final_newline(s),
    ensures
        no_final_newline(trim_start_newlines(s)),
{
    lemma_leading_count_bound(s, newline_pred());
}

proof fn lemma_strip_intros_keeps_end(rest: Seq<char>)
    requires
        no_final_newline(rest),
    ensures
        no_final_newline(strip_intros(rest)),
    decreases rest.len(),
{
    let ls = lines(rest);
    let e = intro_end(ls);
    if e >= 0 {
        lemma_intro_end_bounds(ls);
        lemma_join_lines_shorter(rest, e);
        let parts = ls.skip(e);
        let next = join(parts, "\n"@);
        if parts.len() > 0 {
            lemma_lines_last_char(rest);
            assert(parts.last() == ls.last());
            lemma_join_last_char(parts, "\n"@);
        }
        lemma_trim_start_newlines_len(next);
        lemma_trim_start_newlines_keeps_end(next);
        lemma_strip_intros_keeps_end(trim_start_newlines(next));
    }
}

/// Renaming keeps the old `README.ja.md`'s trailing line break, and adds none where it
/// had none.
pub proof fn law_rename_keeps_trailing_newline(old: Seq<char>, name: Seq<char>)
    ensures
        ends_with(updated_readme(Some(old), name), "\n"@) == ends_with(old, "\n"@),
{
    reveal_strlit("\n");
    let out = updated_readme(Some(old), name);
    let tail = readme_tail(old);
    if !(old.len() > 0 && old.last() == '\n') {
        lemma_trim_start_newlines_keeps_end(old);
        lemma_strip_intros_keeps_end(trim_start_newlines(old));
        lemma_trim_start_newlines_keeps_end(strip_intros(trim_start_newlines(old)));
        reveal_strlit("元repoからcloneして暖簾分けしました。暖簾分け断面までの履歴を持っています。");
        assert(README_MESSAGE@.len() > 0 && README_MESSAGE@.last() != '\n');
        if tail.len() == 0 {
            assert(out.last() == README_MESSAGE@.last());
        } else {
            assert(out.last() == tail.last());
        }
        assert(!ends_with(out, "\n"@)) by {
            if ends_with(out, "\n"@) {
                assert(out.subrange(out.len() - 1, out.len() as int)[0] == '\n');
            }
        }
        assert(!ends_with(old, "\n"@)) by {
            if ends_with(old, "\n"@) {
                assert(old.subrange(old.len() - 1, old.len() as int)[0] == '\n');
            }
        }
    } else {
        assert(out.subrange(out.len() - 1, out.len() as int) =~= "\n"@);
        assert(old.subrange(old.len() - 1, old.len() as int) =~= "\n"@);
    }
}

// ---------------------------------------------------------------------------
// Executable
// ---------------------------------------------------------------------------

pub open spec fn line_views(ls: Seq<Vec<char>>) -> Seq<Seq<char>> {
    ls.map_values(|l: Vec<char>| l@)
}

fn skip_blank_exec(ls: &Vec<Vec<char>>, i: usize) -> (r: usize)
    requires
        i <= ls@.len(),
    ensures
        r == skip_blank(line_views(ls@), i as int),
        r <= ls@.len(),
{
    let ghost lv = line_views(ls@);
    let mut j = i;
    while j < ls.len() && is_blank(ls[j].as_slice())
        invariant
            i <= j <= ls@.len(),
            lv == line_views(ls@),
            skip_blank(lv, i as int) == skip_blank(lv, j as int),
        decreases ls@.len() - j,
    {
        assert(lv[j as int] == ls@[j as int]@);
        j = j + 1;
    }
    if j < ls.len() {
        assert(lv[j as int] == ls@[j as int]@);
    }
    j
}

fn intro_end_exec(ls: &Vec<Vec<char>>) -> (r: Option<usize>)
    ensures
        intro_end(line_views(ls@)) < 0 ==> r is None,
        intro_end(line_views(ls@)) >= 0 ==> r == Some(intro_end(line_views(ls@)) as usize),
{
    let ghost lv = line_views(ls@);
    let hash = to_chars("# ");
    if ls.len() == 0 {
        return None;
    }
    assert(lv[0] == ls@[0]@);
    if !starts_with_chars(ls[0].as_slice(), hash.as_slice()) {
        return None;
    }
    let i = skip_blank_exec(ls, 1);
    if i >= ls.len() {
        return None;
    }
    assert(lv[i as int] == ls@[i as int]@);
    let message = to_chars(README_MESSAGE);
    let t = trim_chars(ls[i].as_slice());
    if !chars_eq(t.as_slice(), message.as_slice()) {
        return None;
    }
    let i2 = skip_blank_exec(ls, i + 1);
    if i2 < ls.len() {
        assert(lv[i2 as int] == ls@[i2 as int]@);
        let marker = to_chars("元repo: `");
        let t2 = trim_chars(ls[i2].as_slice());
        if starts_with_chars(t2.as_slice(), marker.as_slice()) {
            return Some(skip_blank_exec(ls, i2 + 1));
        }
    }
    Some(i2)
}

/// `ls[start..].join(sep)`.
fn join_from(ls: &Vec<Vec<char>>, start: usize, sep: &[char]) -> (r: Vec<char>)
    requires
        start <= ls@.len(),
    ensures
        r@ == join(line_views(ls@).skip(start as int), sep@),
{
    let ghost ps = line_views(ls@).skip(start as int);
    let mut r: Vec<char> = Vec::new();
    let mut i: usize = start;
    assert(ps.take(0) =~= Seq::<Seq<char>>::empty());
    while i < ls.len()
        invariant
            start <= i <= ls@.len(),
            ps == line_views(ls@).skip(start as int),
            r@ == join(ps.take(i - start), sep@),
        decreases ls@.len() - i,
    {
        proof {
            lemma_join_push(ps.take(i - start), sep@, ps[i - start]);
            assert(ps.take(i - start).push(ps[i - start]) =~= ps.take(i - start + 1));
            assert(ps[i - start] == ls@[i as int]@);
        }
        if i > start {
            extend_chars(&mut r, sep);
        }
        extend_chars(&mut r, ls[i].as_slice());
        i = i + 1;
    }
    assert(ps.take(ls@.len() - start) =~= ps);
    r
}

/// Removes the introductions this tool wrote at the top of a README, however many
/// renames stacked them up.
pub fn strip_existing_norenwake_intro(input: &str) -> (r: String)
    ensures
        r@ == strip_intros(trim_start_newlines(input@)),
{
    let chars = to_chars(input);
    let mut rest = trim_start_newline_chars(chars.as_slice());
    let newline = to_chars("\n");
    loop
        invariant
            strip_intros(rest@) == strip_intros(trim_start_newlines(input@)),
            newline@ == "\n"@,
        ensures
            rest@ == strip_intros(trim_start_newlines(input@)),
        decreases rest@.len(),
    {
        let ls = split_lines(rest.as_slice());
        assert(line_views(ls@) == lines(rest@));
        match intro_end_exec(&ls) {
            None => {
                assert(strip_intros(rest@) == rest@);
                break;
            },
            Some(e) => {
                proof {
                    lemma_intro_end_bounds(lines(rest@));
                    lemma_join_lines_shorter(rest@, e as int);
                }
                let joined = join_from(&ls, e, newline.as_slice());
                proof {
                    lemma_trim_start_newlines_len(joined@);
                }
                rest = trim_start_newline_chars(joined.as_slice());
            },
        }
    }
    from_chars(rest.as_slice())
}

/// The new content of `README.ja.md` after renaming to `new_repo_name`, given the old
/// content (`None` when the file does not exist).
pub fn updated_readme_ja(old: Option<&str>, new_repo_name: &str) -> (content: String)
    ensures
        content@ == updated_readme(
            match old {
                Some(o) => Some(o@),
                None => None,
            },
            new_repo_name@,
        ),
{
    let mut content = String::new();
    content.append("# ");
    content.append(new_repo_name);
    content.append("\n\n");
    content.append(README_MESSAGE);
    let ghost head = content@;
    assert(head =~= intro(new_repo_name@));
    match old {
        Some(o) => {
            let stripped = strip_existing_norenwake_intro(o);
            let tail = trim_start_newline_chars(to_chars(stripped.as_str()).as_slice());
            if tail.len() > 0 {
                content.append("\n\n");
                content.append(from_chars(tail.as_slice()).as_str());
            }
            let ov = to_chars(o);
            if ov.len() > 0 && ov[ov.len() - 1] == '\n' {
                crate::text::push_char(&mut content, '\n');
            }
            assert(content@ =~= updated_readme(Some(o@), new_repo_name@));
        },
        None => {
            content.append("\n");
        },
    }
    content
}

} // verus!
