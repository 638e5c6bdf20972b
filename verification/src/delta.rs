//! Cleaning up what `delta` renders for the README diff: colour sequences are
//! removed for the plain text, and header, hunk, rule and line-number lines are
//! dropped from both the coloured and the plain rendering.
use vstd::prelude::*;

use crate::text::{
    all_ws, from_chars, is_blank, join, lines, split_lines, starts_with,
    starts_with_chars, string_of, string_views, to_chars, trim, trim_chars,
};

verus! {

broadcast use vstd::string::group_string_axioms;

pub open spec fn is_final_char(c: char) -> bool {
    '@' <= c && c <= '~'
}

/// Index of the first character that ends a control sequence, or `-1`.
pub open spec fn first_final(s: Seq<char>) -> int
    decreases s.len(),
{
    if s.len() == 0 {
        -1
    } else if is_final_char(s[0]) {
        0
    } else {
        let r = first_final(s.drop_first());
        if r < 0 {
            -1
        } else {
            r + 1
        }
    }
}

pub proof fn lemma_first_final(s: Seq<char>, k: int)
    requires
        0 <= k <= s.len(),
        forall|j: int| 0 <= j < k ==> !is_final_char(#[trigger] s[j]),
        k == s.len() || is_final_char(s[k]),
    ensures
        first_final(s) == if k == s.len() {
            -1
        } else {
            k
        },
    decreases k,
{
    if k > 0 {
        let t = s.drop_first();
        assert forall|j: int| 0 <= j < k - 1 implies !is_final_char(#[trigger] t[j]) by {
            assert(t[j] == s[j + 1]);
        }
        if k - 1 < t.len() {
            assert(t[k - 1] == s[k]);
        }
        lemma_first_final(t, k - 1);
    }
}

pub proof fn lemma_first_final_bound(s: Seq<char>)
    ensures
        -1 <= first_final(s) < s.len(),
    decreases s.len(),
{
    if s.len() > 0 && !is_final_char(s[0]) {
        lemma_first_final_bound(s.drop_first());
    }
}

/// The text with escape characters removed, and with each `ESC [` control sequence
/// removed up to and including its final character in `@..=~`.
pub open spec fn strip_ansi(s: Seq<char>) -> Seq<char>
    decreases s.len(),
{
    if s.len() == 0 {
        Seq::empty()
    } else if s[0] == '\u{1b}' {
        if s.len() > 1 && s[1] == '[' {
            let rest = s.skip(2);
            let k = first_final(rest);
            proof {
                lemma_first_final_bound(rest);
            }
            if k < 0 {
                Seq::empty()
            } else {
                strip_ansi(rest.skip(k + 1))
            }
        } else {
            strip_ansi(s.skip(1))
        }
    } else {
        seq![s[0]] + strip_ansi(s.skip(1))
    }
}

/// `strip_ansi` over a character vector.
pub fn strip_ansi_sequences(input: &str) -> (out: String)
    ensures
        out@ == strip_ansi(input@),
{
    let v = to_chars(input);
    let mut out: Vec<char> = Vec::new();
    let mut i: usize = 0;
    assert(v@.skip(0) =~= v@);
    while i < v.len()
        invariant
            i <= v@.len(),
            v@ == input@,
            strip_ansi(v@) == out@ + strip_ansi(v@.skip(i as int)),
        decreases v@.len() - i,
    {
        let ghost s = v@.skip(i as int);
        assert(s[0] == v@[i as int]);
        assert(s.skip(1) =~= v@.skip(i + 1));
        if v[i] == '\u{1b}' {
            if i + 1 < v.len() && v[i + 1] == '[' {
                assert(s[1] == v@[i + 1]);
                assert(s.skip(2) =~= v@.skip(i + 2));
                let mut j: usize = i + 2;
                while j < v.len() && !('@' <= v[j] && v[j] <= '~')
                    invariant
                        i + 2 <= j <= v@.len(),
                        forall|m: int| i + 2 <= m < j ==> !is_final_char(#[trigger] v@[m]),
                    decreases v@.len() - j,
                {
                    j = j + 1;
                }
                proof {
                    let rest = v@.skip(i + 2);
                    assert forall|m: int| 0 <= m < j - (i + 2) implies !is_final_char(
                        #[trigger] rest[m],
                    ) by {
                        assert(rest[m] == v@[i + 2 + m]);
                    }
                    if j < v@.len() {
                        assert(rest[j - (i + 2)] == v@[j as int]);
                    }
                    lemma_first_final(rest, j - (i + 2));
                    if j < v@.len() {
                        assert(rest.skip(j - (i + 2) + 1) =~= v@.skip(j + 1));
                    }
                }
                if j == v.len() {
                    assert(out@ + Seq::<char>::empty() =~= out@);
                    assert(v@.skip(v@.len() as int) =~= Seq::<char>::empty());
                    i = j;
                } else {
                    i = j + 1;
                }
            } else {
                i = i + 1;
            }
        } else {
            let ghost before = out@;
            out.push(v[i]);
            assert(before + (seq![v@[i as int]] + strip_ansi(v@.skip(i + 1))) =~= out@
                + strip_ansi(v@.skip(i + 1)));
            i = i + 1;
        }
    }
    assert(v@.skip(i as int) =~= Seq::<char>::empty());
    assert(out@ + Seq::<char>::empty() =~= out@);
    from_chars(out.as_slice())
}

/// Stripping leaves no escape character behind.
pub proof fn law_strip_ansi_leaves_no_escape(s: Seq<char>)
    ensures
        !strip_ansi(s).contains('\u{1b}'),
    decreases s.len(),
{
    if s.len() > 0 {
        if s[0] == '\u{1b}' {
            if s.len() > 1 && s[1] == '[' {
                let rest = s.skip(2);
                lemma_first_final_bound(rest);
                let k = first_final(rest);
                if k >= 0 {
                    law_strip_ansi_leaves_no_escape(rest.skip(k + 1));
                }
            } else {
                law_strip_ansi_leaves_no_escape(s.skip(1));
            }
        } else {
            let r = strip_ansi(s.skip(1));
            law_strip_ansi_leaves_no_escape(s.skip(1));
            assert forall|i: int| 0 <= i < strip_ansi(s).len() implies strip_ansi(s)[i]
                != '\u{1b}' by {
                if i > 0 {
                    assert(strip_ansi(s)[i] == r[i - 1]);
                }
            }
        }
    }
}

/// Stripping never makes the text longer.
pub proof fn law_strip_ansi_not_longer(s: Seq<char>)
    ensures
        strip_ansi(s).len() <= s.len(),
    decreases s.len(),
{
    if s.len() > 0 {
        if s[0] == '\u{1b}' {
            if s.len() > 1 && s[1] == '[' {
                let rest = s.skip(2);
                lemma_first_final_bound(rest);
                let k = first_final(rest);
                if k >= 0 {
                    law_strip_ansi_not_longer(rest.skip(k + 1));
                }
            } else {
                law_strip_ansi_not_longer(s.skip(1));
            }
        } else {
            law_strip_ansi_not_longer(s.skip(1));
        }
    }
}

/// Text without an escape character comes back unchanged.
pub proof fn law_strip_ansi_keeps_plain_text(s: Seq<char>)
    requires
        !s.contains('\u{1b}'),
    ensures
        strip_ansi(s) == s,
    decreases s.len(),
{
    if s.len() > 0 {
        let t = s.skip(1);
        assert forall|i: int| 0 <= i < t.len() implies t[i] != '\u{1b}' by {
            assert(t[i] == s[i + 1]);
        }
        law_strip_ansi_keeps_plain_text(t);
        assert(s[0] != '\u{1b}');
        assert(seq![s[0]] + t =~= s);
    }
}

/// Stripping twice gives what stripping once gives.
pub proof fn law_strip_ansi_idempotent(s: Seq<char>)
    ensures
        strip_ansi(strip_ansi(s)) == strip_ansi(s),
{
    law_strip_ansi_leaves_no_escape(s);
    law_strip_ansi_keeps_plain_text(strip_ansi(s));
}

pub open spec fn no_diff_notice() -> Seq<char> {
    "(差分はありません)"@
}

/// What the validation pane shows when there is nothing to hand to `delta`: for a
/// `git diff` text that is empty or white space only, no coloured text and the single
/// line `(差分はありません)`; `None` when the text holds a diff to render.
pub fn rendering_without_diff(diff_text: &str) -> (r: Option<(String, Vec<String>)>)
    ensures
        r is Some <==> all_ws(diff_text@),
        r matches Some(p) ==> p.0@ == Seq::<char>::empty() && string_views(p.1@) == seq![
            no_diff_notice(),
        ],
{
    let v = to_chars(diff_text);
    if is_blank(v.as_slice()) {
        let mut notice: Vec<String> = Vec::new();
        notice.push(string_of("(差分はありません)"));
        assert(string_views(notice@) =~= seq![no_diff_notice()]);
        Some((String::new(), notice))
    } else {
        None
    }
}

/// The box-drawing, dash and space characters `delta` draws rules with.
pub open spec fn is_rule_char(c: char) -> bool {
    c == '─' || c == '━' || c == '│' || c == '┤' || c == '├' || c == '┬' || c == '┴' || c == '┼'
        || c == '-' || c == ' '
}

pub open spec fn is_digit(c: char) -> bool {
    '0' <= c && c <= '9'
}

/// A line of `delta` output that carries no diff content: blank lines, git's header
/// and hunk lines, rules, and bare `N:` line numbers.
pub open spec fn delta_noise(line: Seq<char>) -> bool {
    let t = trim(line);
    ||| t.len() == 0
    ||| starts_with(t, "diff --git "@)
    ||| starts_with(t, "index "@)
    ||| starts_with(t, "--- "@)
    ||| starts_with(t, "+++ "@)
    ||| starts_with(t, "@@"@)
    ||| (forall|i: int| 0 <= i < t.len() ==> is_rule_char(#[trigger] t[i]))
    ||| (t.len() >= 2 && t.last() == ':' && forall|i: int|
        0 <= i < t.len() - 1 ==> is_digit(#[trigger] t[i]))
}

fn all_rule_chars(t: &[char]) -> (b: bool)
    ensures
        b == (forall|i: int| 0 <= i < t@.len() ==> is_rule_char(#[trigger] t@[i])),
{
    let mut i: usize = 0;
    while i < t.len()
        invariant
            i <= t@.len(),
            forall|j: int| 0 <= j < i ==> is_rule_char(#[trigger] t@[j]),
        decreases t@.len() - i,
    {
        let c = t[i];
        if !(c == '─' || c == '━' || c == '│' || c == '┤' || c == '├' || c == '┬' || c == '┴'
            || c == '┼' || c == '-' || c == ' ') {
            return false;
        }
        i = i + 1;
    }
    true
}

fn is_line_number(t: &[char]) -> (b: bool)
    ensures
        b == (t@.len() >= 2 && t@.last() == ':' && forall|i: int|
            0 <= i < t@.len() - 1 ==> is_digit(#[trigger] t@[i])),
{
    if t.len() < 2 || t[t.len() - 1] != ':' {
        return false;
    }
    let mut i: usize = 0;
    while i < t.len() - 1
        invariant
            t@.len() >= 2,
            i <= t@.len() - 1,
            forall|j: int| 0 <= j < i ==> is_digit(#[trigger] t@[j]),
        decreases t@.len() - i,
    {
        if !('0' <= t[i] && t[i] <= '9') {
            return false;
        }
        i = i + 1;
    }
    true
}

fn has_prefix(t: &[char], p: &str) -> (b: bool)
    ensures
        b == starts_with(t@, p@),
{
    let pv = to_chars(p);
    starts_with_chars(t, pv.as_slice())
}

/// Whether a plain line of `delta`'s output is decoration rather than content:
/// blank, a diff header, a rule, or a bare line number.
pub fn is_delta_noise_line(line: &str) -> (b: bool)
    ensures
        b == delta_noise(line@),
{
    let chars = to_chars(line);
    noise_chars(chars.as_slice())
}

fn noise_chars(line: &[char]) -> (b: bool)
    ensures
        b == delta_noise(line@),
{
    let t = trim_chars(line);
    t.len() == 0 || has_prefix(t.as_slice(), "diff --git ") || has_prefix(t.as_slice(), "index ")
        || has_prefix(t.as_slice(), "--- ") || has_prefix(t.as_slice(), "+++ ") || has_prefix(
        t.as_slice(),
        "@@",
    ) || all_rule_chars(t.as_slice()) || is_line_number(t.as_slice())
}

/// The coloured lines kept, pairing the coloured and plain renderings line by line.
pub open spec fn kept_ansi(a: Seq<Seq<char>>, p: Seq<Seq<char>>) -> Seq<Seq<char>>
    decreases a.len(),
{
    if a.len() == 0 || p.len() == 0 {
        Seq::empty()
    } else if delta_noise(p[0]) {
        kept_ansi(a.drop_first(), p.drop_first())
    } else {
        seq![a[0]] + kept_ansi(a.drop_first(), p.drop_first())
    }
}

/// The plain lines kept.
pub open spec fn kept_plain(a: Seq<Seq<char>>, p: Seq<Seq<char>>) -> Seq<Seq<char>>
    decreases a.len(),
{
    if a.len() == 0 || p.len() == 0 {
        Seq::empty()
    } else if delta_noise(p[0]) {
        kept_plain(a.drop_first(), p.drop_first())
    } else {
        seq![p[0]] + kept_plain(a.drop_first(), p.drop_first())
    }
}

pub open spec fn delta_empty_notice() -> Seq<char> {
    "(delta の出力は空です)"@
}

/// What the validation pane shows of a `delta` rendering: the kept coloured lines
/// joined, and the kept plain lines (or a notice when none are left).
pub open spec fn cleaned_delta(ansi: Seq<char>) -> (Seq<char>, Seq<Seq<char>>) {
    let a = lines(ansi);
    let p = lines(strip_ansi(ansi));
    let plain = kept_plain(a, p);
    (
        join(kept_ansi(a, p), "\n"@),
        if plain.len() == 0 {
            seq![delta_empty_notice()]
        } else {
            plain
        },
    )
}

/// Cleans up `delta`'s output.
pub fn filter_delta_output(ansi_text: &str) -> (r: (String, Vec<String>))
    ensures
        r.0@ == cleaned_delta(ansi_text@).0,
        string_views(r.1@) == cleaned_delta(ansi_text@).1,
{
    let plain_text = strip_ansi_sequences(ansi_text);
    let av = to_chars(ansi_text);
    let pv = to_chars(plain_text.as_str());
    let al = split_lines(av.as_slice());
    let pl = split_lines(pv.as_slice());
    let ghost a = lines(ansi_text@);
    let ghost p = lines(strip_ansi(ansi_text@));
    let mut kept_a: Vec<Vec<char>> = Vec::new();
    let mut kept_p: Vec<String> = Vec::new();
    let mut i: usize = 0;
    assert(a.skip(0) =~= a);
    assert(p.skip(0) =~= p);
    while i < al.len() && i < pl.len()
        invariant
            i <= al@.len(),
            i <= pl@.len(),
            al@.map_values(|l: Vec<char>| l@) == a,
            pl@.map_values(|l: Vec<char>| l@) == p,
            kept_ansi(a, p) == kept_a@.map_values(|l: Vec<char>| l@) + kept_ansi(
                a.skip(i as int),
                p.skip(i as int),
            ),
            kept_plain(a, p) == string_views(kept_p@) + kept_plain(
                a.skip(i as int),
                p.skip(i as int),
            ),
        decreases al@.len() - i,
    {
        let ghost sa = a.skip(i as int);
        let ghost sp = p.skip(i as int);
        assert(sa[0] == al@[i as int]@);
        assert(sp[0] == pl@[i as int]@);
        assert(sa.drop_first() =~= a.skip(i + 1));
        assert(sp.drop_first() =~= p.skip(i + 1));
        if !noise_chars(pl[i].as_slice()) {
            let ghost ka = kept_a@;
            let ghost kp = kept_p@;
            kept_a.push(crate::text::slice_chars(al[i].as_slice(), 0, al[i].len()));
            kept_p.push(from_chars(pl[i].as_slice()));
            assert(al@[i as int]@.subrange(0, al@[i as int]@.len() as int) =~= al@[i as int]@);
            assert(kept_a@.map_values(|l: Vec<char>| l@) =~= ka.map_values(|l: Vec<char>| l@).push(
                al@[i as int]@,
            ));
            assert(string_views(kept_p@) =~= string_views(kp).push(pl@[i as int]@));
            assert(ka.map_values(|l: Vec<char>| l@) + (seq![sa[0]] + kept_ansi(
                a.skip(i + 1),
                p.skip(i + 1),
            )) =~= kept_a@.map_values(|l: Vec<char>| l@) + kept_ansi(
                a.skip(i + 1),
                p.skip(i + 1),
            ));
            assert(string_views(kp) + (seq![sp[0]] + kept_plain(a.skip(i + 1), p.skip(i + 1)))
                =~= string_views(kept_p@) + kept_plain(a.skip(i + 1), p.skip(i + 1)));
        }
        i = i + 1;
    }
    proof {
        let ghost sa = a.skip(i as int);
        let ghost sp = p.skip(i as int);
        assert(sa.len() == 0 || sp.len() == 0);
        assert(kept_ansi(sa, sp) =~= Seq::<Seq<char>>::empty());
        assert(kept_plain(sa, sp) =~= Seq::<Seq<char>>::empty());
        assert(kept_a@.map_values(|l: Vec<char>| l@) + Seq::<Seq<char>>::empty() =~= kept_a@.map_values(
            |l: Vec<char>| l@,
        ));
        assert(string_views(kept_p@) + Seq::<Seq<char>>::empty() =~= string_views(kept_p@));
    }
    let newline = to_chars("\n");
    let joined = from_chars(crate::text::join_chars(&kept_a, newline.as_slice()).as_slice());
    if kept_p.len() == 0 {
        let mut notice: Vec<String> = Vec::new();
        notice.push(crate::text::string_of("(delta の出力は空です)"));
        assert(string_views(notice@) =~= seq![delta_empty_notice()]);
        (joined, notice)
    } else {
        (joined, kept_p)
    }
}

} // verus!
