//! Character-level text handling: the string operations the rest of the
//! library performs (trimming, line splitting, joining, searching), each
//! stated over `Seq<char>` and implemented over `Vec<char>`.
use vstd::prelude::*;

verus! {

broadcast use vstd::string::group_string_axioms;

// ---------------------------------------------------------------------------
// Specifications
// ---------------------------------------------------------------------------

/// Unicode `White_Space`, the set `char::is_whitespace` tests.
pub open spec fn is_ws(c: char) -> bool {
    let u = c as u32;
    ||| (0x09 <= u && u <= 0x0d)
    ||| u == 0x20
    ||| u == 0x85
    ||| u == 0xa0
    ||| u == 0x1680
    ||| (0x2000 <= u && u <= 0x200a)
    ||| u == 0x2028
    ||| u == 0x2029
    ||| u == 0x202f
    ||| u == 0x205f
    ||| u == 0x3000
}

pub open spec fn is_newline_char(c: char) -> bool {
    c == '\r' || c == '\n'
}

/// Number of leading characters of `s` that satisfy `p`.
pub open spec fn leading_count(s: Seq<char>, p: spec_fn(char) -> bool) -> nat
    decreases s.len(),
{
    if s.len() > 0 && p(s[0]) {
        1 + leading_count(s.drop_first(), p)
    } else {
        0
    }
}

/// Number of trailing characters of `s` that satisfy `p`.
pub open spec fn trailing_count(s: Seq<char>, p: spec_fn(char) -> bool) -> nat
    decreases s.len(),
{
    if s.len() > 0 && p(s.last()) {
        1 + trailing_count(s.drop_last(), p)
    } else {
        0
    }
}

pub open spec fn ws_pred() -> spec_fn(char) -> bool {
    |c: char| is_ws(c)
}

pub open spec fn newline_pred() -> spec_fn(char) -> bool {
    |c: char| is_newline_char(c)
}

/// `str::trim_start`.
pub open spec fn trim_start(s: Seq<char>) -> Seq<char> {
    s.skip(leading_count(s, ws_pred()) as int)
}

/// `str::trim_end`.
pub open spec fn trim_end(s: Seq<char>) -> Seq<char> {
    s.take(s.len() - trailing_count(s, ws_pred()))
}

/// `str::trim`.
pub open spec fn trim(s: Seq<char>) -> Seq<char> {
    trim_end(trim_start(s))
}

/// `str::trim_start_matches(['\r', '\n'])`.
pub open spec fn trim_start_newlines(s: Seq<char>) -> Seq<char> {
    s.skip(leading_count(s, newline_pred()) as int)
}

pub open spec fn all_ws(s: Seq<char>) -> bool {
    forall|i: int| 0 <= i < s.len() ==> is_ws(#[trigger] s[i])
}

pub open spec fn starts_with(s: Seq<char>, prefix: Seq<char>) -> bool {
    prefix.len() <= s.len() && s.subrange(0, prefix.len() as int) == prefix
}

pub open spec fn ends_with(s: Seq<char>, suffix: Seq<char>) -> bool {
    suffix.len() <= s.len() && s.subrange(s.len() - suffix.len(), s.len() as int) == suffix
}

/// `needle` occurs in `hay` starting at position `i`.
pub open spec fn occurs_at(hay: Seq<char>, needle: Seq<char>, i: int) -> bool {
    0 <= i && i + needle.len() <= hay.len() && hay.subrange(i, i + needle.len()) == needle
}

/// `str::contains` for a string pattern.
pub open spec fn contains_seq(hay: Seq<char>, needle: Seq<char>) -> bool {
    exists|i: int| occurs_at(hay, needle, i)
}

/// Index of the first `c` in `s`, or `-1`.
pub open spec fn find_char(s: Seq<char>, c: char) -> int
    decreases s.len(),
{
    if s.len() == 0 {
        -1
    } else if s[0] == c {
        0
    } else {
        let r = find_char(s.drop_first(), c);
        if r < 0 {
            -1
        } else {
            r + 1
        }
    }
}

/// One line as `str::lines` hands it out: a `\r` right before the `\n` is dropped.
pub open spec fn strip_cr(line: Seq<char>) -> Seq<char> {
    if line.len() > 0 && line.last() == '\r' {
        line.drop_last()
    } else {
        line
    }
}

/// `str::lines`: split at `\n` (dropping a `\r` before it); the final line ending is optional.
pub open spec fn lines(s: Seq<char>) -> Seq<Seq<char>>
    decreases s.len(),
{
    if s.len() == 0 {
        Seq::empty()
    } else {
        let k = find_char(s, '\n');
        proof {
            lemma_find_char_bound(s, '\n');
        }
        if k < 0 {
            seq![s]
        } else {
            seq![strip_cr(s.take(k))] + lines(s.skip(k + 1))
        }
    }
    }

/// `[..].join(sep)`.
pub open spec fn join(parts: Seq<Seq<char>>, sep: Seq<char>) -> Seq<char>
    decreases parts.len(),
{
    if parts.len() == 0 {
        Seq::empty()
    } else if parts.len() == 1 {
        parts[0]
    } else {
        join(parts.drop_last(), sep) + sep + parts.last()
    }
}

/// Length of the leading run of characters that are not white space.
pub open spec fn word_len(s: Seq<char>) -> nat
    decreases s.len(),
{
    if s.len() > 0 && !is_ws(s[0]) {
        1 + word_len(s.drop_first())
    } else {
        0
    }
}

/// `str::split_whitespace`.
pub open spec fn words(s: Seq<char>) -> Seq<Seq<char>>
    decreases s.len(),
{
    if s.len() == 0 {
        Seq::empty()
    } else if is_ws(s[0]) {
        words(s.drop_first())
    } else {
        let n = word_len(s);
        proof {
            lemma_word_len_bound(s);
        }
        seq![s.take(n as int)] + words(s.skip(n as int))
    }
}

pub open spec fn digit_char(d: nat) -> char {
    if d == 0 { '0' }
    else if d == 1 { '1' }
    else if d == 2 { '2' }
    else if d == 3 { '3' }
    else if d == 4 { '4' }
    else if d == 5 { '5' }
    else if d == 6 { '6' }
    else if d == 7 { '7' }
    else if d == 8 { '8' }
    else { '9' }
}

/// The decimal representation of `n`, as `n.to_string()` writes it.
pub open spec fn decimal(n: nat) -> Seq<char>
    decreases n,
{
    if n < 10 {
        seq![digit_char(n)]
    } else {
        decimal(n / 10).push(digit_char(n % 10))
    }
}

/// Lexicographic order of code points, which is the order of `str` and `String`
/// (UTF-8 preserves code point order byte by byte).
pub open spec fn chars_less(a: Seq<char>, b: Seq<char>) -> bool
    decreases a.len(),
{
    if b.len() == 0 {
        false
    } else if a.len() == 0 {
        true
    } else if a[0] != b[0] {
        (a[0] as int) < (b[0] as int)
    } else {
        chars_less(a.drop_first(), b.drop_first())
    }
}

/// The characters of each string.
pub open spec fn string_views(v: Seq<String>) -> Seq<Seq<char>> {
    v.map_values(|s: String| s@)
}

/// Appending a string appends its characters to the views.
pub proof fn lemma_string_views_push(s: Seq<String>, x: String)
    ensures
        string_views(s.push(x)) == string_views(s).push(x@),
{
    assert(string_views(s.push(x)) =~= string_views(s).push(x@));
}

pub open spec fn opt_string_view(v: Option<String>) -> Option<Seq<char>> {
    match v {
        Some(s) => Some(s@),
        None => None,
    }
}

/// The result of `str::to_lowercase`, whose Unicode tables this library does not restate.
pub uninterp spec fn lowercase(s: Seq<char>) -> Seq<char>;

// ---------------------------------------------------------------------------
// Lemmas
// ---------------------------------------------------------------------------

pub proof fn lemma_leading_count(s: Seq<char>, p: spec_fn(char) -> bool, i: int)
    requires
        0 <= i <= s.len(),
        forall|j: int| 0 <= j < i ==> p(#[trigger] s[j]),
        i == s.len() || !p(s[i]),
    ensures
        leading_count(s, p) == i,
    decreases i,
{
    if i > 0 {
        let t = s.drop_first();
        assert forall|j: int| 0 <= j < i - 1 implies p(#[trigger] t[j]) by {
            assert(t[j] == s[j + 1]);
        }
        if i - 1 < t.len() {
            assert(t[i - 1] == s[i]);
        }
        lemma_leading_count(t, p, i - 1);
    }
}

pub proof fn lemma_leading_count_bound(s: Seq<char>, p: spec_fn(char) -> bool)
    ensures
        leading_count(s, p) <= s.len(),
        forall|j: int| 0 <= j < leading_count(s, p) ==> p(#[trigger] s[j]),
        leading_count(s, p) < s.len() ==> !p(s[leading_count(s, p) as int]),
    decreases s.len(),
{
    if s.len() > 0 && p(s[0]) {
        let t = s.drop_first();
        lemma_leading_count_bound(t, p);
        assert forall|j: int| 0 <= j < leading_count(s, p) implies p(#[trigger] s[j]) by {
            if j > 0 {
                assert(s[j] == t[j - 1]);
            }
        }
    }
}

pub proof fn lemma_find_char_bound(s: Seq<char>, c: char)
    ensures
        -1 <= find_char(s, c) < s.len(),
        find_char(s, c) >= 0 ==> s[find_char(s, c)] == c,
    decreases s.len(),
{
    if s.len() > 0 && s[0] != c {
        lemma_find_char_bound(s.drop_first(), c);
    }
}

pub proof fn lemma_word_len_bound(s: Seq<char>)
    ensures
        word_len(s) <= s.len(),
        s.len() > 0 && !is_ws(s[0]) ==> word_len(s) > 0,
    decreases s.len(),
{
    if s.len() > 0 && !is_ws(s[0]) {
        lemma_word_len_bound(s.drop_first());
    }
}

pub proof fn lemma_trailing_count_bound(s: Seq<char>, p: spec_fn(char) -> bool)
    ensures
        trailing_count(s, p) <= s.len(),
        forall|j: int| s.len() - trailing_count(s, p) <= j < s.len() ==> p(#[trigger] s[j]),
    decreases s.len(),
{
    if s.len() > 0 && p(s.last()) {
        let t = s.drop_last();
        lemma_trailing_count_bound(t, p);
        assert forall|j: int| s.len() - trailing_count(s, p) <= j < s.len() implies p(
            #[trigger] s[j],
        ) by {
            if j < s.len() - 1 {
                assert(s[j] == t[j]);
            }
        }
    }
}

pub proof fn lemma_trailing_count(s: Seq<char>, p: spec_fn(char) -> bool, e: int)
    requires
        0 <= e <= s.len(),
        forall|j: int| e <= j < s.len() ==> p(#[trigger] s[j]),
        e == 0 || !p(s[e - 1]),
    ensures
        trailing_count(s, p) == s.len() - e,
    decreases s.len() - e,
{
    if e < s.len() {
        let t = s.drop_last();
        assert forall|j: int| e <= j < t.len() implies p(#[trigger] t[j]) by {
            assert(t[j] == s[j]);
        }
        if e > 0 {
            assert(t[e - 1] == s[e - 1]);
        }
        lemma_trailing_count(t, p, e);
    }
}

pub proof fn lemma_find_char(s: Seq<char>, c: char, k: int)
    requires
        0 <= k <= s.len(),
        forall|j: int| 0 <= j < k ==> #[trigger] s[j] != c,
        k == s.len() || s[k] == c,
    ensures
        k < s.len() ==> find_char(s, c) == k,
        k == s.len() ==> find_char(s, c) == -1,
    decreases k,
{
    if k > 0 {
        let t = s.drop_first();
        assert forall|j: int| 0 <= j < k - 1 implies #[trigger] t[j] != c by {
            assert(t[j] == s[j + 1]);
        }
        if k - 1 < t.len() {
            assert(t[k - 1] == s[k]);
        }
        lemma_find_char(t, c, k - 1);
    }
}

pub proof fn lemma_word_len(s: Seq<char>, i: int)
    requires
        0 <= i <= s.len(),
        forall|j: int| 0 <= j < i ==> !is_ws(#[trigger] s[j]),
        i == s.len() || is_ws(s[i]),
    ensures
        word_len(s) == i,
    decreases i,
{
    if i > 0 {
        let t = s.drop_first();
        assert forall|j: int| 0 <= j < i - 1 implies !is_ws(#[trigger] t[j]) by {
            assert(t[j] == s[j + 1]);
        }
        if i - 1 < t.len() {
            assert(t[i - 1] == s[i]);
        }
        lemma_word_len(t, i - 1);
    }
}

/// Splitting a text at a position where a line ends.
pub proof fn lemma_lines_step(s: Seq<char>, start: int, k: int)
    requires
        0 <= start <= k < s.len(),
        s[k] == '\n',
        forall|j: int| start <= j < k ==> #[trigger] s[j] != '\n',
    ensures
        lines(s.skip(start)) == seq![strip_cr(s.subrange(start, k))] + lines(s.skip(k + 1)),
{
    let t = s.skip(start);
    assert forall|j: int| 0 <= j < k - start implies #[trigger] t[j] != '\n' by {
        assert(t[j] == s[start + j]);
    }
    assert(t[k - start] == s[k]);
    lemma_find_char(t, '\n', k - start);
    assert(t.take(k - start) =~= s.subrange(start, k));
    assert(t.skip(k - start + 1) =~= s.skip(k + 1));
}

/// The last line of a text that does not end in a line break.
pub proof fn lemma_lines_last(s: Seq<char>, start: int)
    requires
        0 <= start < s.len(),
        forall|j: int| start <= j < s.len() ==> #[trigger] s[j] != '\n',
    ensures
        lines(s.skip(start)) == seq![s.skip(start)],
{
    let t = s.skip(start);
    assert forall|j: int| 0 <= j < t.len() implies #[trigger] t[j] != '\n' by {
        assert(t[j] == s[start + j]);
    }
    lemma_find_char(t, '\n', t.len() as int);
}

pub proof fn lemma_words_skip_ws(s: Seq<char>, i: int)
    requires
        0 <= i < s.len(),
        is_ws(s[i]),
    ensures
        words(s.skip(i)) == words(s.skip(i + 1)),
{
    let t = s.skip(i);
    assert(t[0] == s[i]);
    assert(t.drop_first() =~= s.skip(i + 1));
}

pub proof fn lemma_words_step(s: Seq<char>, start: int, e: int)
    requires
        0 <= start < e <= s.len(),
        forall|j: int| start <= j < e ==> !is_ws(#[trigger] s[j]),
        e == s.len() || is_ws(s[e]),
    ensures
        words(s.skip(start)) == seq![s.subrange(start, e)] + words(s.skip(e)),
{
    let t = s.skip(start);
    assert forall|j: int| 0 <= j < e - start implies !is_ws(#[trigger] t[j]) by {
        assert(t[j] == s[start + j]);
    }
    if e < s.len() {
        assert(t[e - start] == s[e]);
    }
    assert(t[0] == s[start]);
    lemma_word_len(t, e - start);
    assert(t.take(e - start) =~= s.subrange(start, e));
    assert(t.skip(e - start) =~= s.skip(e));
}

pub proof fn lemma_join_push(parts: Seq<Seq<char>>, sep: Seq<char>, x: Seq<char>)
    ensures
        join(parts.push(x), sep) == if parts.len() == 0 {
            x
        } else {
            join(parts, sep) + sep + x
        },
{
    assert(parts.push(x).drop_last() =~= parts);
}

/// `chars_less` is the order of `str`: code points compared at the first position where
/// the two texts differ, and a proper prefix before the longer text. When `a` and `b`
/// agree before position `i`, the outcome is decided at `i`.
pub proof fn law_chars_less_first_difference(a: Seq<char>, b: Seq<char>, i: int)
    requires
        0 <= i <= a.len(),
        i <= b.len(),
        forall|j: int| 0 <= j < i ==> a[j] == b[j],
    ensures
        i < a.len() && i < b.len() && a[i] != b[i] ==> (chars_less(a, b) <==> (a[i] as int) < (
        b[i] as int)),
        i == a.len() && i < b.len() ==> chars_less(a, b),
        i == b.len() ==> !chars_less(a, b),
    decreases i,
{
    if i > 0 {
        let ta = a.drop_first();
        let tb = b.drop_first();
        assert(a[0] == b[0]);
        assert forall|j: int| 0 <= j < i - 1 implies ta[j] == tb[j] by {
            assert(ta[j] == a[j + 1]);
            assert(tb[j] == b[j + 1]);
        }
        law_chars_less_first_difference(ta, tb, i - 1);
        if i < a.len() {
            assert(ta[i - 1] == a[i]);
        }
        if i < b.len() {
            assert(tb[i - 1] == b[i]);
        }
    }
}

pub proof fn lemma_chars_less_irreflexive(a: Seq<char>)
    ensures
        !chars_less(a, a),
    decreases a.len(),
{
    if a.len() > 0 {
        lemma_chars_less_irreflexive(a.drop_first());
    }
}

pub proof fn lemma_chars_less_transitive(a: Seq<char>, b: Seq<char>, c: Seq<char>)
    requires
        chars_less(a, b),
        chars_less(b, c),
    ensures
        chars_less(a, c),
    decreases a.len(),
{
    if a.len() > 0 && b.len() > 0 && c.len() > 0 {
        if a[0] == b[0] && b[0] == c[0] {
            lemma_chars_less_transitive(a.drop_first(), b.drop_first(), c.drop_first());
        }
    }
}

pub proof fn lemma_chars_less_total(a: Seq<char>, b: Seq<char>)
    requires
        a != b,
    ensures
        chars_less(a, b) || chars_less(b, a),
    decreases a.len(),
{
    if a.len() > 0 && b.len() > 0 && a[0] == b[0] {
        if a.drop_first() == b.drop_first() {
            assert(a =~= seq![a[0]] + a.drop_first());
            assert(b =~= seq![b[0]] + b.drop_first());
        }
        lemma_chars_less_total(a.drop_first(), b.drop_first());
    } else if a.len() > 0 && b.len() > 0 {
        assert((a[0] as int) != (b[0] as int));
    } else if a.len() == 0 && b.len() == 0 {
        assert(a =~= b);
    }
}

pub proof fn lemma_chars_less_asymmetric(a: Seq<char>, b: Seq<char>)
    requires
        chars_less(a, b),
    ensures
        !chars_less(b, a),
{
    if chars_less(b, a) {
        lemma_chars_less_transitive(a, b, a);
        lemma_chars_less_irreflexive(a);
    }
}

pub proof fn lemma_encode_utf8_concat(a: Seq<char>, b: Seq<char>)
    ensures
        vstd::utf8::encode_utf8(a + b) == vstd::utf8::encode_utf8(a) + vstd::utf8::encode_utf8(
            b,
        ),
    decreases a.len(),
{
    if a.len() > 0 {
        assert((a + b).drop_first() =~= a.drop_first() + b);
        assert((a + b)[0] == a[0]);
        lemma_encode_utf8_concat(a.drop_first(), b);
        assert(vstd::utf8::encode_utf8(a + b) =~= vstd::utf8::encode_utf8(a)
            + vstd::utf8::encode_utf8(b));
    } else {
        assert(a + b =~= b);
        assert(vstd::utf8::encode_utf8(a) =~= Seq::<u8>::empty());
        assert(vstd::utf8::encode_utf8(a) + vstd::utf8::encode_utf8(b) =~= vstd::utf8::encode_utf8(b));
    }
}

/// The number of bytes UTF-8 takes for `c`.
fn utf8_width(c: char) -> (w: usize)
    ensures
        w == vstd::utf8::encode_utf8(seq![c]).len(),
{
    let u = c as u32;
    proof {
        let e = vstd::utf8::encode_utf8(seq![c]);
        assert(seq![c].drop_first() =~= Seq::<char>::empty());
        assert(vstd::utf8::encode_utf8(seq![c].drop_first()) =~= Seq::<u8>::empty());
        assert(seq![c][0] == c);
        assert(e =~= vstd::utf8::encode_scalar(c as u32));
    }
    if u <= 0x7f {
        1
    } else if u <= 0x7ff {
        2
    } else if u <= 0xffff && !(0xd800 <= u && u <= 0xdfff) {
        3
    } else {
        4
    }
}

/// Whether the UTF-8 encoding of `v` takes more than `limit` bytes.
pub fn utf8_longer_than(v: &[char], limit: usize) -> (b: bool)
    ensures
        b == (vstd::utf8::encode_utf8(v@).len() > limit),
{
    let mut acc: usize = 0;
    let mut i: usize = 0;
    while i < v.len()
        invariant
            i <= v.len(),
            acc <= limit,
            acc == vstd::utf8::encode_utf8(v@.take(i as int)).len(),
        decreases v.len() - i,
    {
        let w = utf8_width(v[i]);
        proof {
            assert(v@.take(i + 1) =~= v@.take(i as int) + seq![v@[i as int]]);
            lemma_encode_utf8_concat(v@.take(i as int), seq![v@[i as int]]);
        }
        if w > limit - acc {
            proof {
                lemma_encode_utf8_concat(v@.take(i + 1), v@.skip(i + 1));
                assert(v@.take(i + 1) + v@.skip(i + 1) =~= v@);
            }
            return true;
        }
        acc = acc + w;
        i = i + 1;
    }
    assert(v@.take(v.len() as int) =~= v@);
    false
}

// ---------------------------------------------------------------------------
// Executable operations
// ---------------------------------------------------------------------------

/// Copies the characters of a string slice into a vector.
pub fn to_chars(s: &str) -> (v: Vec<char>)
    ensures
        v@ == s@,
{
    let mut v: Vec<char> = Vec::new();
    for c in it: s.chars()
        invariant
            it.seq() == s@,
            v@ == s@.take(it.index() as int),
    {
        v.push(c);
    }
    v
}

/// `String::push`: appends one character at the end, as its documentation says.
#[verifier::external_body]
pub(crate) fn push_char(s: &mut String, c: char)
    ensures
        final(s)@ == old(s)@.push(c),
{
    s.push(c);
}

/// `str::to_lowercase`: the lower-case form by Unicode's case tables. Which character
/// becomes which is not restated; the result is named `lowercase` of the input.
#[verifier::external_body]
pub(crate) fn str_to_lowercase(s: &str) -> (r: String)
    ensures
        r@ == lowercase(s@),
{
    s.to_lowercase()
}

/// Builds a `String` holding the characters of `v`.
pub fn from_chars(v: &[char]) -> (s: String)
    ensures
        s@ == v@,
{
    let mut s = String::new();
    let mut i: usize = 0;
    while i < v.len()
        invariant
            i <= v.len(),
            s@ == v@.take(i as int),
        decreases v.len() - i,
    {
        push_char(&mut s, v[i]);
        i = i + 1;
    }
    s
}

/// A string literal as a `String`.
pub fn string_of(s: &str) -> (r: String)
    ensures
        r@ == s@,
{
    let mut r = String::new();
    r.append(s);
    r
}

/// Appends the characters of `src` to `dst`.
pub fn extend_chars(dst: &mut Vec<char>, src: &[char])
    ensures
        final(dst)@ == old(dst)@ + src@,
{
    let mut i: usize = 0;
    while i < src.len()
        invariant
            i <= src.len(),
            dst@ == old(dst)@ + src@.take(i as int),
        decreases src.len() - i,
    {
        dst.push(src[i]);
        i = i + 1;
    }
}

/// The characters `v[start..end]`.
pub fn slice_chars(v: &[char], start: usize, end: usize) -> (r: Vec<char>)
    requires
        start <= end <= v.len(),
    ensures
        r@ == v@.subrange(start as int, end as int),
{
    let mut r: Vec<char> = Vec::new();
    let mut i: usize = start;
    while i < end
        invariant
            start <= i <= end <= v.len(),
            r@ == v@.subrange(start as int, i as int),
        decreases end - i,
    {
        r.push(v[i]);
        i = i + 1;
    }
    r
}

pub fn is_whitespace(c: char) -> (b: bool)
    ensures
        b == is_ws(c),
{
    let u = c as u32;
    (0x09 <= u && u <= 0x0d) || u == 0x20 || u == 0x85 || u == 0xa0 || u == 0x1680 || (0x2000
        <= u && u <= 0x200a) || u == 0x2028 || u == 0x2029 || u == 0x202f || u == 0x205f || u
        == 0x3000
}

pub fn chars_eq(a: &[char], b: &[char]) -> (r: bool)
    ensures
        r == (a@ == b@),
{
    if a.len() != b.len() {
        return false;
    }
    let mut i: usize = 0;
    while i < a.len()
        invariant
            a.len() == b.len(),
            i <= a.len(),
            forall|j: int| 0 <= j < i ==> a@[j] == b@[j],
        decreases a.len() - i,
    {
        if a[i] != b[i] {
            return false;
        }
        i = i + 1;
    }
    assert(a@ =~= b@);
    true
}

/// `str == str`.
pub fn str_eq(a: &str, b: &str) -> (r: bool)
    ensures
        r == (a@ == b@),
{
    let va = to_chars(a);
    let vb = to_chars(b);
    chars_eq(va.as_slice(), vb.as_slice())
}

/// Position of the first character that is not white space.
pub fn ws_prefix_end(v: &[char]) -> (i: usize)
    ensures
        i == leading_count(v@, ws_pred()),
        i <= v.len(),
{
    let mut i: usize = 0;
    while i < v.len() && is_whitespace(v[i])
        invariant
            i <= v.len(),
            forall|j: int| 0 <= j < i ==> is_ws(#[trigger] v@[j]),
        decreases v.len() - i,
    {
        i = i + 1;
    }
    proof {
        lemma_leading_count(v@, ws_pred(), i as int);
    }
    i
}

/// End of `v` once trailing white space is dropped.
pub fn ws_suffix_start(v: &[char]) -> (e: usize)
    ensures
        e == v.len() - trailing_count(v@, ws_pred()),
{
    let mut e: usize = v.len();
    while e > 0 && is_whitespace(v[e - 1])
        invariant
            e <= v.len(),
            forall|j: int| e <= j < v.len() ==> is_ws(#[trigger] v@[j]),
        decreases e,
    {
        e = e - 1;
    }
    proof {
        lemma_trailing_count(v@, ws_pred(), e as int);
    }
    e
}

/// `str::trim` on a character vector.
pub fn trim_chars(v: &[char]) -> (r: Vec<char>)
    ensures
        r@ == trim(v@),
{
    let i = ws_prefix_end(v);
    let t = slice_chars(v, i, v.len());
    let e = ws_suffix_start(t.as_slice());
    proof {
        lemma_leading_count_bound(v@, ws_pred());
    }
    slice_chars(t.as_slice(), 0, e)
}

/// `str::trim` on a string slice.
pub fn trim_str(s: &str) -> (r: Vec<char>)
    ensures
        r@ == trim(s@),
{
    let v = to_chars(s);
    trim_chars(v.as_slice())
}

/// `s.trim().is_empty()`.
pub fn is_blank(v: &[char]) -> (b: bool)
    ensures
        b == (trim(v@).len() == 0),
        b == all_ws(v@),
{
    let i = ws_prefix_end(v);
    proof {
        lemma_leading_count_bound(v@, ws_pred());
        let t = v@.skip(i as int);
        if i as int == v.len() {
            assert(t.len() == 0);
            lemma_trailing_count(t, ws_pred(), 0);
        } else {
            assert(!is_ws(t[0]));
            lemma_trailing_count_bound(t, ws_pred());
            if trailing_count(t, ws_pred()) == t.len() {
                assert(is_ws(t[0]));
            }
            assert(!is_ws(v@[i as int]));
            assert(!all_ws(v@));
        }
    }
    i == v.len()
}

/// `str::trim_start_matches(['\r', '\n'])`.
pub fn trim_start_newline_chars(v: &[char]) -> (r: Vec<char>)
    ensures
        r@ == trim_start_newlines(v@),
{
    let mut i: usize = 0;
    while i < v.len() && (v[i] == '\r' || v[i] == '\n')
        invariant
            i <= v.len(),
            forall|j: int| 0 <= j < i ==> is_newline_char(#[trigger] v@[j]),
        decreases v.len() - i,
    {
        i = i + 1;
    }
    proof {
        lemma_leading_count(v@, newline_pred(), i as int);
    }
    slice_chars(v, i, v.len())
}

pub fn starts_with_chars(v: &[char], prefix: &[char]) -> (b: bool)
    ensures
        b == starts_with(v@, prefix@),
{
    if prefix.len() > v.len() {
        return false;
    }
    let head = slice_chars(v, 0, prefix.len());
    chars_eq(head.as_slice(), prefix)
}

/// Whether `needle` occurs at position `i` of `hay`.
fn occurs_at_exec(hay: &[char], needle: &[char], i: usize) -> (b: bool)
    requires
        i + needle.len() <= hay.len(),
    ensures
        b == occurs_at(hay@, needle@, i as int),
{
    let mut j: usize = 0;
    while j < needle.len()
        invariant
            i + needle.len() <= hay.len(),
            j <= needle.len(),
            forall|k: int| 0 <= k < j ==> hay@[i + k] == needle@[k],
        decreases needle.len() - j,
    {
        if hay[i + j] != needle[j] {
            assert(hay@.subrange(i as int, i + needle.len())[j as int] != needle@[j as int]);
            return false;
        }
        j = j + 1;
    }
    assert(hay@.subrange(i as int, i + needle.len()) =~= needle@);
    true
}

/// `str::contains` with a string pattern.
pub fn contains_chars(hay: &[char], needle: &[char]) -> (b: bool)
    ensures
        b == contains_seq(hay@, needle@),
{
    if needle.len() > hay.len() {
        return false;
    }
    let last = hay.len() - needle.len();
    let mut i: usize = 0;
    loop
        invariant
            needle.len() <= hay.len(),
            last == hay.len() - needle.len(),
            i <= last,
            forall|k: int| 0 <= k < i ==> !occurs_at(hay@, needle@, k),
        decreases last - i,
    {
        if occurs_at_exec(hay, needle, i) {
            return true;
        }
        if i == last {
            return false;
        }
        i = i + 1;
    }
}

/// `str::contains` on string slices.
pub fn str_contains(hay: &str, needle: &str) -> (b: bool)
    ensures
        b == contains_seq(hay@, needle@),
{
    let h = to_chars(hay);
    let n = to_chars(needle);
    contains_chars(h.as_slice(), n.as_slice())
}

/// `str::lines`, each line as a character vector.
pub fn split_lines(v: &[char]) -> (r: Vec<Vec<char>>)
    ensures
        r@.map_values(|l: Vec<char>| l@) == lines(v@),
{
    let mut r: Vec<Vec<char>> = Vec::new();
    let mut start: usize = 0;
    let mut k: usize = 0;
    assert(v@.skip(0) =~= v@);
    while k < v.len()
        invariant
            start <= k <= v.len(),
            forall|j: int| start <= j < k ==> #[trigger] v@[j] != '\n',
            r@.map_values(|l: Vec<char>| l@) + lines(v@.skip(start as int)) == lines(v@),
        decreases v.len() - k,
    {
        if v[k] == '\n' {
            let mut end = k;
            if end > start && v[end - 1] == '\r' {
                end = end - 1;
            }
            let line = slice_chars(v, start, end);
            proof {
                lemma_lines_step(v@, start as int, k as int);
                assert(line@ == strip_cr(v@.subrange(start as int, k as int)));
                assert(r@.push(line).map_values(|l: Vec<char>| l@) =~= r@.map_values(
                    |l: Vec<char>| l@,
                ).push(line@));
            }
            r.push(line);
            start = k + 1;
        }
        k = k + 1;
    }
    if start < v.len() {
        let line = slice_chars(v, start, v.len());
        proof {
            lemma_lines_last(v@, start as int);
            assert(line@ =~= v@.skip(start as int));
            assert(r@.push(line).map_values(|l: Vec<char>| l@) =~= r@.map_values(
                |l: Vec<char>| l@,
            ).push(line@));
        }
        r.push(line);
    } else {
        assert(v@.skip(start as int).len() == 0);
        assert(lines(v@.skip(start as int)) =~= Seq::<Seq<char>>::empty());
    }
    assert(r@.map_values(|l: Vec<char>| l@) =~= lines(v@));
    r
}

/// `lines.join(sep)`.
pub fn join_chars(parts: &Vec<Vec<char>>, sep: &[char]) -> (r: Vec<char>)
    ensures
        r@ == join(parts@.map_values(|l: Vec<char>| l@), sep@),
{
    let ghost ps = parts@.map_values(|l: Vec<char>| l@);
    let mut r: Vec<char> = Vec::new();
    let mut i: usize = 0;
    while i < parts.len()
        invariant
            i <= parts.len(),
            ps == parts@.map_values(|l: Vec<char>| l@),
            r@ == join(ps.take(i as int), sep@),
        decreases parts.len() - i,
    {
        proof {
            lemma_join_push(ps.take(i as int), sep@, ps[i as int]);
            assert(ps.take(i as int).push(ps[i as int]) =~= ps.take(i + 1));
        }
        if i > 0 {
            extend_chars(&mut r, sep);
        }
        extend_chars(&mut r, parts[i].as_slice());
        i = i + 1;
    }
    assert(ps.take(parts.len() as int) =~= ps);
    r
}

/// `str::split_whitespace`.
pub fn split_words(v: &[char]) -> (r: Vec<Vec<char>>)
    ensures
        r@.map_values(|w: Vec<char>| w@) == words(v@),
{
    let mut r: Vec<Vec<char>> = Vec::new();
    let mut i: usize = 0;
    assert(v@.skip(0) =~= v@);
    while i < v.len()
        invariant
            i <= v.len(),
            r@.map_values(|w: Vec<char>| w@) + words(v@.skip(i as int)) == words(v@),
        decreases v.len() - i,
    {
        if is_whitespace(v[i]) {
            proof {
                lemma_words_skip_ws(v@, i as int);
            }
            i = i + 1;
        } else {
            let mut e = i + 1;
            while e < v.len() && !is_whitespace(v[e])
                invariant
                    i < e <= v.len(),
                    forall|j: int| i <= j < e ==> !is_ws(#[trigger] v@[j]),
                decreases v.len() - e,
            {
                e = e + 1;
            }
            let w = slice_chars(v, i, e);
            proof {
                lemma_words_step(v@, i as int, e as int);
                assert(r@.push(w).map_values(|w: Vec<char>| w@) =~= r@.map_values(
                    |w: Vec<char>| w@,
                ).push(w@));
            }
            r.push(w);
            i = e;
        }
    }
    assert(v@.skip(i as int).len() == 0);
    assert(r@.map_values(|w: Vec<char>| w@) =~= words(v@));
    r
}

fn digit_to_char(d: u64) -> (c: char)
    requires
        d < 10,
    ensures
        c == digit_char(d as nat),
{
    if d == 0 { '0' }
    else if d == 1 { '1' }
    else if d == 2 { '2' }
    else if d == 3 { '3' }
    else if d == 4 { '4' }
    else if d == 5 { '5' }
    else if d == 6 { '6' }
    else if d == 7 { '7' }
    else if d == 8 { '8' }
    else { '9' }
}

/// The decimal digits of `n`.
pub fn decimal_chars(n: u64) -> (r: Vec<char>)
    ensures
        r@ == decimal(n as nat),
    decreases n,
{
    if n < 10 {
        let mut r: Vec<char> = Vec::new();
        r.push(digit_to_char(n));
        assert(r@ =~= decimal(n as nat));
        r
    } else {
        let mut r = decimal_chars(n / 10);
        r.push(digit_to_char(n % 10));
        r
    }
}

/// Whether `a` comes strictly before `b` in code point order.
pub fn chars_less_exec(a: &[char], b: &[char]) -> (r: bool)
    ensures
        r == chars_less(a@, b@),
{
    let mut i: usize = 0;
    assert(a@.skip(0) =~= a@);
    assert(b@.skip(0) =~= b@);
    while i < a.len() && i < b.len() && a[i] == b[i]
        invariant
            i <= a.len(),
            i <= b.len(),
            forall|j: int| 0 <= j < i ==> a@[j] == b@[j],
            chars_less(a@, b@) == chars_less(a@.skip(i as int), b@.skip(i as int)),
        decreases a.len() - i,
    {
        proof {
            let x = a@.skip(i as int);
            let y = b@.skip(i as int);
            assert(x.drop_first() =~= a@.skip(i + 1));
            assert(y.drop_first() =~= b@.skip(i + 1));
        }
        i = i + 1;
    }
    if i == b.len() {
        false
    } else if i == a.len() {
        true
    } else {
        a[i] < b[i]
    }
}

} // verus!
