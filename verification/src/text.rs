use vstd::prelude::*;

verus! {

/// Whether `c` has the Unicode `White_Space` property, which is what
/// `char::is_whitespace` tests.
pub open spec fn is_ws(c: char) -> bool {
    ||| c == ' ' || c == '\t' || c == '\n' || c == '\x0B' || c == '\x0C' || c == '\r'
    ||| c == '\u{85}' || c == '\u{A0}' || c == '\u{1680}'
    ||| ('\u{2000}' <= c && c <= '\u{200A}')
    ||| c == '\u{2028}' || c == '\u{2029}' || c == '\u{202F}' || c == '\u{205F}'
    ||| c == '\u{3000}'
}

/// Executable counterpart of [`is_ws`].
pub fn char_is_ws(c: char) -> (b: bool)
    ensures
        b == is_ws(c),
{
    c == ' ' || c == '\t' || c == '\n' || c == '\x0B' || c == '\x0C' || c == '\r' || c == '\u{85}'
        || c == '\u{A0}' || c == '\u{1680}' || ('\u{2000}' <= c && c <= '\u{200A}') || c
        == '\u{2028}' || c == '\u{2029}' || c == '\u{202F}' || c == '\u{205F}' || c == '\u{3000}'
}

// ---------------------------------------------------------------------------
// Runs of characters, walking forwards or backwards from an index.
// ---------------------------------------------------------------------------

/// The first index at or after `i` whose character is not whitespace
/// (or `s.len()` when there is none).
pub open spec fn ws_run(s: Seq<char>, i: int) -> int
    decreases s.len() - i,
{
    if 0 <= i < s.len() && is_ws(s[i]) {
        ws_run(s, i + 1)
    } else {
        i
    }
}

/// The first index at or after `i` whose character is whitespace
/// (or `s.len()` when there is none).
pub open spec fn nonws_run(s: Seq<char>, i: int) -> int
    decreases s.len() - i,
{
    if 0 <= i < s.len() && !is_ws(s[i]) {
        nonws_run(s, i + 1)
    } else {
        i
    }
}

/// Walking back from `j`, not below `lo`, the first index whose preceding
/// character is not whitespace.
pub open spec fn back_ws(s: Seq<char>, j: int, lo: int) -> int
    decreases j - lo,
{
    if lo < j <= s.len() && is_ws(s[j - 1]) {
        back_ws(s, j - 1, lo)
    } else {
        j
    }
}

/// Walking back from `j`, not below `lo`, past every character equal to `c`.
pub open spec fn back_char(s: Seq<char>, c: char, j: int, lo: int) -> int
    decreases j - lo,
{
    if lo < j <= s.len() && s[j - 1] == c {
        back_char(s, c, j - 1, lo)
    } else {
        j
    }
}

/// Walking forward from `i` past every character equal to `c`.
pub open spec fn fwd_char(s: Seq<char>, c: char, i: int) -> int
    decreases s.len() - i,
{
    if 0 <= i < s.len() && s[i] == c {
        fwd_char(s, c, i + 1)
    } else {
        i
    }
}

/// The first index at or after `i` holding `c` (or `s.len()` when there is none).
pub open spec fn find_from(s: Seq<char>, c: char, i: int) -> int
    decreases s.len() - i,
{
    if 0 <= i < s.len() && s[i] != c {
        find_from(s, c, i + 1)
    } else {
        i
    }
}

/// The last index below `j` holding `c`, or -1 when there is none.
pub open spec fn rfind_before(s: Seq<char>, c: char, j: int) -> int
    decreases j,
{
    if 0 < j <= s.len() {
        if s[j - 1] == c {
            j - 1
        } else {
            rfind_before(s, c, j - 1)
        }
    } else {
        -1
    }
}

pub proof fn lemma_ws_run_bounds(s: Seq<char>, i: int)
    requires
        0 <= i <= s.len(),
    ensures
        i <= ws_run(s, i) <= s.len(),
        ws_run(s, i) < s.len() ==> !is_ws(s[ws_run(s, i)]),
        forall|k: int| i <= k < ws_run(s, i) ==> is_ws(s[k]),
    decreases s.len() - i,
{
    if i < s.len() && is_ws(s[i]) {
        lemma_ws_run_bounds(s, i + 1);
    }
}

pub proof fn lemma_nonws_run_bounds(s: Seq<char>, i: int)
    requires
        0 <= i <= s.len(),
    ensures
        i <= nonws_run(s, i) <= s.len(),
        i < s.len() && !is_ws(s[i]) ==> i < nonws_run(s, i),
        nonws_run(s, i) < s.len() ==> is_ws(s[nonws_run(s, i)]),
    decreases s.len() - i,
{
    if i < s.len() && !is_ws(s[i]) {
        lemma_nonws_run_bounds(s, i + 1);
    }
}

pub proof fn lemma_back_ws_bounds(s: Seq<char>, j: int, lo: int)
    requires
        0 <= lo <= j <= s.len(),
    ensures
        lo <= back_ws(s, j, lo) <= j,
    decreases j - lo,
{
    if lo < j && is_ws(s[j - 1]) {
        lemma_back_ws_bounds(s, j - 1, lo);
    }
}

pub proof fn lemma_back_char_bounds(s: Seq<char>, c: char, j: int, lo: int)
    requires
        0 <= lo <= j <= s.len(),
    ensures
        lo <= back_char(s, c, j, lo) <= j,
    decreases j - lo,
{
    if lo < j && s[j - 1] == c {
        lemma_back_char_bounds(s, c, j - 1, lo);
    }
}

pub proof fn lemma_fwd_char_bounds(s: Seq<char>, c: char, i: int)
    requires
        0 <= i <= s.len(),
    ensures
        i <= fwd_char(s, c, i) <= s.len(),
    decreases s.len() - i,
{
    if i < s.len() && s[i] == c {
        lemma_fwd_char_bounds(s, c, i + 1);
    }
}

pub proof fn lemma_find_from_bounds(s: Seq<char>, c: char, i: int)
    requires
        0 <= i <= s.len(),
    ensures
        i <= find_from(s, c, i) <= s.len(),
        find_from(s, c, i) < s.len() ==> s[find_from(s, c, i)] == c,
        forall|k: int| i <= k < find_from(s, c, i) ==> s[k] != c,
    decreases s.len() - i,
{
    if i < s.len() && s[i] != c {
        lemma_find_from_bounds(s, c, i + 1);
    }
}

pub proof fn lemma_rfind_bounds(s: Seq<char>, c: char, j: int)
    requires
        0 <= j <= s.len(),
    ensures
        -1 <= rfind_before(s, c, j) < j,
        rfind_before(s, c, j) >= 0 ==> s[rfind_before(s, c, j)] == c,
    decreases j,
{
    if 0 < j && s[j - 1] != c {
        lemma_rfind_bounds(s, c, j - 1);
    }
}

/// Index walk that computes [`ws_run`].
pub fn skip_ws(s: &[char], i: usize) -> (r: usize)
    requires
        i <= s@.len(),
    ensures
        r == ws_run(s@, i as int),
{
    let mut k = i;
    while k < s.len() && char_is_ws(s[k])
        invariant
            i <= k <= s@.len(),
            ws_run(s@, k as int) == ws_run(s@, i as int),
        decreases s@.len() - k,
    {
        k = k + 1;
    }
    k
}

/// Index walk that computes [`nonws_run`].
pub fn skip_nonws(s: &[char], i: usize) -> (r: usize)
    requires
        i <= s@.len(),
    ensures
        r == nonws_run(s@, i as int),
{
    let mut k = i;
    while k < s.len() && !char_is_ws(s[k])
        invariant
            i <= k <= s@.len(),
            nonws_run(s@, k as int) == nonws_run(s@, i as int),
        decreases s@.len() - k,
    {
        k = k + 1;
    }
    k
}

/// Index walk that computes [`back_ws`].
pub fn skip_ws_back(s: &[char], j: usize, lo: usize) -> (r: usize)
    requires
        lo <= j <= s@.len(),
    ensures
        r == back_ws(s@, j as int, lo as int),
{
    let mut k = j;
    while k > lo && char_is_ws(s[k - 1])
        invariant
            lo <= k <= j,
            j <= s@.len(),
            back_ws(s@, k as int, lo as int) == back_ws(s@, j as int, lo as int),
        decreases k,
    {
        k = k - 1;
    }
    k
}

/// Index walk that computes [`back_char`].
pub fn skip_char_back(s: &[char], c: char, j: usize, lo: usize) -> (r: usize)
    requires
        lo <= j <= s@.len(),
    ensures
        r == back_char(s@, c, j as int, lo as int),
{
    let mut k = j;
    while k > lo && s[k - 1] == c
        invariant
            lo <= k <= j,
            j <= s@.len(),
            back_char(s@, c, k as int, lo as int) == back_char(s@, c, j as int, lo as int),
        decreases k,
    {
        k = k - 1;
    }
    k
}

/// Index walk that computes [`fwd_char`].
pub fn skip_char(s: &[char], c: char, i: usize) -> (r: usize)
    requires
        i <= s@.len(),
    ensures
        r == fwd_char(s@, c, i as int),
{
    let mut k = i;
    while k < s.len() && s[k] == c
        invariant
            i <= k <= s@.len(),
            fwd_char(s@, c, k as int) == fwd_char(s@, c, i as int),
        decreases s@.len() - k,
    {
        k = k + 1;
    }
    k
}

/// Index walk that computes [`find_from`].
pub fn find_char_from(s: &[char], c: char, i: usize) -> (r: usize)
    requires
        i <= s@.len(),
    ensures
        r == find_from(s@, c, i as int),
{
    let mut k = i;
    while k < s.len() && s[k] != c
        invariant
            i <= k <= s@.len(),
            find_from(s@, c, k as int) == find_from(s@, c, i as int),
        decreases s@.len() - k,
    {
        k = k + 1;
    }
    k
}

/// Index walk that computes [`rfind_before`] over the whole sequence;
/// `None` stands for -1.
pub fn rfind_char(s: &[char], c: char) -> (r: Option<usize>)
    ensures
        match r {
            Some(k) => k == rfind_before(s@, c, s@.len() as int),
            None => rfind_before(s@, c, s@.len() as int) == -1,
        },
{
    let mut k = s.len();
    while k > 0
        invariant
            k <= s@.len(),
            rfind_before(s@, c, k as int) == rfind_before(s@, c, s@.len() as int),
        decreases k,
    {
        if s[k - 1] == c {
            return Some(k - 1);
        }
        k = k - 1;
    }
    None
}


// ---------------------------------------------------------------------------
// Trimming, tokens and splitting.
// ---------------------------------------------------------------------------

/// Start of the text that `str::trim` keeps.
pub open spec fn trim_lo(s: Seq<char>) -> int {
    ws_run(s, 0)
}

/// End of the text that `str::trim` keeps.
pub open spec fn trim_hi(s: Seq<char>) -> int {
    back_ws(s, s.len() as int, trim_lo(s))
}

/// `s` without its leading and trailing whitespace (`str::trim`).
pub open spec fn trim(s: Seq<char>) -> Seq<char> {
    s.subrange(trim_lo(s), trim_hi(s))
}

/// `s` without its leading whitespace (`str::trim_start`).
pub open spec fn trim_start(s: Seq<char>) -> Seq<char> {
    s.skip(ws_run(s, 0))
}

/// `s` without its trailing whitespace (`str::trim_end`).
pub open spec fn trim_end(s: Seq<char>) -> Seq<char> {
    s.take(back_ws(s, s.len() as int, 0))
}

/// `s` without every trailing `c` (`str::trim_end_matches` with a char).
pub open spec fn trim_end_char(s: Seq<char>, c: char) -> Seq<char> {
    s.take(back_char(s, c, s.len() as int, 0))
}

/// `s` without every leading and trailing `c` (`str::trim_matches` with a char).
pub open spec fn trim_char(s: Seq<char>, c: char) -> Seq<char> {
    s.subrange(fwd_char(s, c, 0), back_char(s, c, s.len() as int, fwd_char(s, c, 0)))
}

/// Number of leading whitespace characters (the indentation of a line).
pub open spec fn indent_of(s: Seq<char>) -> int {
    ws_run(s, 0)
}

pub proof fn lemma_trim_bounds(s: Seq<char>)
    ensures
        0 <= trim_lo(s) <= trim_hi(s) <= s.len(),
        0 <= back_ws(s, s.len() as int, 0) <= s.len(),
{
    lemma_ws_run_bounds(s, 0);
    lemma_back_ws_bounds(s, s.len() as int, trim_lo(s));
    lemma_back_ws_bounds(s, s.len() as int, 0);
}

/// The whitespace-separated words of `s` from index `i` on (`str::split_whitespace`).
pub open spec fn tokens_from(s: Seq<char>, i: int) -> Seq<Seq<char>>
    decreases s.len() - i,
{
    if 0 <= i <= s.len() {
        let a = ws_run(s, i);
        proof {
            lemma_ws_run_bounds(s, i);
        }
        if a < s.len() {
            let b = nonws_run(s, a);
            proof {
                lemma_nonws_run_bounds(s, a);
            }
            if a < b {
                seq![s.subrange(a, b)] + tokens_from(s, b)
            } else {
                seq![]
            }
        } else {
            seq![]
        }
    } else {
        seq![]
    }
}

/// The trimmed text of a line, when not empty, holds at least one word.
pub proof fn lemma_nonempty_tokens(s: Seq<char>)
    requires
        trim(s).len() > 0,
    ensures
        tokens(trim(s)).len() >= 1,
{
    lemma_trim_bounds(s);
    lemma_ws_run_bounds(s, 0);
    let t = trim(s);
    assert(t[0] == s[trim_lo(s)]);
    assert(!is_ws(t[0]));
    lemma_ws_run_bounds(t, 0);
    assert(ws_run(t, 0) == 0);
    lemma_nonws_run_bounds(t, 0);
}

/// The whitespace-separated words of `s` (`str::split_whitespace`).
pub open spec fn tokens(s: Seq<char>) -> Seq<Seq<char>> {
    tokens_from(s, 0)
}

/// The pieces of `s` from index `i` on, separated by `c` (`str::split` with a char).
pub open spec fn split_from(s: Seq<char>, c: char, i: int) -> Seq<Seq<char>>
    decreases s.len() - i,
{
    if 0 <= i <= s.len() {
        let j = find_from(s, c, i);
        proof {
            lemma_find_from_bounds(s, c, i);
        }
        if j < s.len() {
            seq![s.subrange(i, j)] + split_from(s, c, j + 1)
        } else {
            seq![s.subrange(i, s.len() as int)]
        }
    } else {
        seq![]
    }
}

/// The pieces of `s` separated by `c` (`str::split` with a char).
pub open spec fn split_on(s: Seq<char>, c: char) -> Seq<Seq<char>> {
    split_from(s, c, 0)
}

/// The texts that `spans` pick out of `s`.
pub open spec fn span_texts(s: Seq<char>, spans: Seq<(usize, usize)>) -> Seq<Seq<char>> {
    Seq::new(spans.len(), |k: int| s.subrange(spans[k].0 as int, spans[k].1 as int))
}

/// Every span lies inside `s`.
pub open spec fn spans_inside(s: Seq<char>, spans: Seq<(usize, usize)>) -> bool {
    forall|k: int| 0 <= k < spans.len() ==> #[trigger] spans[k].0 <= spans[k].1 <= s.len()
}

pub open spec fn starts_with(s: Seq<char>, p: Seq<char>) -> bool {
    p.len() <= s.len() && s.subrange(0, p.len() as int) =~= p
}

pub open spec fn ends_with(s: Seq<char>, p: Seq<char>) -> bool {
    p.len() <= s.len() && s.subrange(s.len() - p.len(), s.len() as int) =~= p
}

/// Whether `s` holds the character `c` somewhere.
pub open spec fn has_char(s: Seq<char>, c: char) -> bool {
    exists|k: int| 0 <= k < s.len() && s[k] == c
}

/// The code of `c` folded to lower case when it is an ASCII capital.
pub open spec fn ascii_fold(c: char) -> u32 {
    if 65 <= (c as u32) <= 90 {
        ((c as u32) + 32) as u32
    } else {
        c as u32
    }
}

/// `str::eq_ignore_ascii_case`.
pub open spec fn eq_ascii_nocase(a: Seq<char>, b: Seq<char>) -> bool {
    a.len() == b.len() && forall|k: int| 0 <= k < a.len() ==> ascii_fold(a[k]) == ascii_fold(b[k])
}

/// First index from `k` on where `p` occurs in `s`, or -1.
pub open spec fn find_sub_from(s: Seq<char>, p: Seq<char>, k: int) -> int
    decreases s.len() - k,
{
    if 0 <= k && k + p.len() <= s.len() {
        if s.subrange(k, k + p.len()) =~= p {
            k
        } else {
            find_sub_from(s, p, k + 1)
        }
    } else {
        -1
    }
}

/// Number of bytes in the UTF-8 encoding of `c`.
pub open spec fn utf8_width(c: char) -> int {
    if (c as u32) < 0x80 {
        1
    } else if (c as u32) < 0x800 {
        2
    } else if (c as u32) < 0x10000 {
        3
    } else {
        4
    }
}

/// Number of bytes in the UTF-8 encoding of `s`.
pub open spec fn byte_len(s: Seq<char>) -> int
    decreases s.len(),
{
    if s.len() == 0 {
        0
    } else {
        byte_len(s.drop_last()) + utf8_width(s.last())
    }
}

/// `l` without one trailing carriage return.
pub open spec fn strip_cr(l: Seq<char>) -> Seq<char> {
    if l.len() > 0 && l.last() == '\r' {
        l.drop_last()
    } else {
        l
    }
}

/// The lines of `s` from index `i` on (`str::lines`): pieces ended by `\n`,
/// each without a `\r` just before its `\n`; a final line end adds no empty line.
pub open spec fn lines_from(s: Seq<char>, i: int) -> Seq<Seq<char>>
    decreases s.len() - i,
{
    if 0 <= i < s.len() {
        let j = find_from(s, '\n', i);
        proof {
            lemma_find_from_bounds(s, '\n', i);
        }
        if j < s.len() {
            seq![strip_cr(s.subrange(i, j))] + lines_from(s, j + 1)
        } else {
            seq![s.subrange(i, s.len() as int)]
        }
    } else {
        seq![]
    }
}

/// The lines of `s` (`str::lines`).
pub open spec fn lines_of(s: Seq<char>) -> Seq<Seq<char>> {
    lines_from(s, 0)
}

/// The character views of a sequence of strings.
pub open spec fn strs_view(v: Seq<String>) -> Seq<Seq<char>> {
    v.map_values(|x: String| x@)
}

pub proof fn lemma_strs_view(v: Seq<String>)
    ensures
        strs_view(v).len() == v.len(),
        forall|i: int| 0 <= i < v.len() ==> #[trigger] strs_view(v)[i] == v[i]@,
{
}

// ---------------------------------------------------------------------------
// Executable counterparts.
// ---------------------------------------------------------------------------

/// Bounds of the text that `str::trim` keeps.
pub fn trim_bounds(s: &[char]) -> (r: (usize, usize))
    ensures
        r.0 == trim_lo(s@),
        r.1 == trim_hi(s@),
        r.0 <= r.1 <= s@.len(),
{
    proof {
        lemma_trim_bounds(s@);
    }
    let a = skip_ws(s, 0);
    let b = skip_ws_back(s, s.len(), a);
    (a, b)
}

/// Spans of the whitespace-separated words of `s`.
pub fn token_spans(s: &[char]) -> (r: Vec<(usize, usize)>)
    ensures
        spans_inside(s@, r@),
        span_texts(s@, r@) == tokens(s@),
{
    let mut r: Vec<(usize, usize)> = Vec::new();
    let mut i: usize = 0;
    loop
        invariant
            i <= s@.len(),
            spans_inside(s@, r@),
            tokens(s@) == span_texts(s@, r@) + tokens_from(s@, i as int),
        decreases s@.len() - i,
    {
        proof {
            lemma_ws_run_bounds(s@, i as int);
        }
        let a = skip_ws(s, i);
        if a >= s.len() {
            assert(tokens_from(s@, i as int) =~= Seq::<Seq<char>>::empty());
            assert(span_texts(s@, r@) + Seq::<Seq<char>>::empty() =~= span_texts(s@, r@));
            return r;
        }
        proof {
            lemma_nonws_run_bounds(s@, a as int);
        }
        let b = skip_nonws(s, a);
        let ghost old_r = r@;
        r.push((a, b));
        proof {
            assert(span_texts(s@, r@) =~= span_texts(s@, old_r).push(s@.subrange(a as int, b as int)));
            assert(tokens_from(s@, i as int) == seq![s@.subrange(a as int, b as int)] + tokens_from(s@, b as int));
            assert(span_texts(s@, old_r) + tokens_from(s@, i as int) =~= span_texts(s@, r@) + tokens_from(s@, b as int));
        }
        i = b;
    }
}

/// Spans of the pieces of `s` separated by `c`.
pub fn split_spans(s: &[char], c: char) -> (r: Vec<(usize, usize)>)
    ensures
        spans_inside(s@, r@),
        span_texts(s@, r@) == split_on(s@, c),
{
    let mut r: Vec<(usize, usize)> = Vec::new();
    let mut i: usize = 0;
    loop
        invariant
            i <= s@.len(),
            spans_inside(s@, r@),
            split_on(s@, c) == span_texts(s@, r@) + split_from(s@, c, i as int),
        decreases s@.len() - i,
    {
        proof {
            lemma_find_from_bounds(s@, c, i as int);
        }
        let j = find_char_from(s, c, i);
        let ghost old_r = r@;
        r.push((i, j));
        assert(span_texts(s@, r@) =~= span_texts(s@, old_r).push(s@.subrange(i as int, j as int)));
        if j >= s.len() {
            assert(split_from(s@, c, i as int) =~= seq![s@.subrange(i as int, j as int)]);
            assert(span_texts(s@, old_r) + split_from(s@, c, i as int) =~= span_texts(s@, r@));
            return r;
        }
        proof {
            assert(split_from(s@, c, i as int) == seq![s@.subrange(i as int, j as int)] + split_from(s@, c, j + 1));
            assert(span_texts(s@, old_r) + split_from(s@, c, i as int) =~= span_texts(s@, r@) + split_from(s@, c, j + 1));
        }
        i = j + 1;
    }
}

/// Whether `s[lo..hi]` holds the same characters as `p`.
pub fn range_eq(s: &[char], lo: usize, hi: usize, p: &[char]) -> (r: bool)
    requires
        lo <= hi <= s@.len(),
    ensures
        r == (s@.subrange(lo as int, hi as int) =~= p@),
{
    if hi - lo != p.len() {
        return false;
    }
    let mut k: usize = 0;
    while k < p.len()
        invariant
            hi - lo == p@.len(),
            lo <= hi <= s@.len(),
            k <= p@.len(),
            forall|j: int| 0 <= j < k ==> s@[lo + j] == p@[j],
        decreases p@.len() - k,
    {
        if s[lo + k] != p[k] {
            return false;
        }
        k = k + 1;
    }
    true
}

/// Whether `s[lo..hi]` begins with `p`.
pub fn range_starts_with(s: &[char], lo: usize, hi: usize, p: &[char]) -> (r: bool)
    requires
        lo <= hi <= s@.len(),
    ensures
        r == starts_with(s@.subrange(lo as int, hi as int), p@),
{
    if p.len() > hi - lo {
        return false;
    }
    let r = range_eq(s, lo, lo + p.len(), p);
    assert(s@.subrange(lo as int, hi as int).subrange(0, p@.len() as int) =~= s@.subrange(
        lo as int,
        lo + p@.len(),
    ));
    r
}

/// Whether `s[lo..hi]` ends with `p`.
pub fn range_ends_with(s: &[char], lo: usize, hi: usize, p: &[char]) -> (r: bool)
    requires
        lo <= hi <= s@.len(),
    ensures
        r == ends_with(s@.subrange(lo as int, hi as int), p@),
{
    if p.len() > hi - lo {
        return false;
    }
    let r = range_eq(s, hi - p.len(), hi, p);
    assert(s@.subrange(lo as int, hi as int).subrange((hi - lo) - p@.len(), (hi - lo) as int)
        =~= s@.subrange(hi - p@.len(), hi as int));
    r
}

/// Whether `s[lo..hi]` holds `c` somewhere.
pub fn range_has_char(s: &[char], lo: usize, hi: usize, c: char) -> (r: bool)
    requires
        lo <= hi <= s@.len(),
    ensures
        r == has_char(s@.subrange(lo as int, hi as int), c),
{
    let mut k = lo;
    while k < hi
        invariant
            lo <= k <= hi <= s@.len(),
            forall|j: int| lo <= j < k ==> s@[j] != c,
        decreases hi - k,
    {
        if s[k] == c {
            assert(s@.subrange(lo as int, hi as int)[k - lo] == c);
            return true;
        }
        k = k + 1;
    }
    assert forall|j: int| 0 <= j < hi - lo implies s@.subrange(lo as int, hi as int)[j] != c by {
        assert(s@[lo + j] != c);
    }
    false
}

/// `str::eq_ignore_ascii_case` over `s[lo..hi]` and `p`.
pub fn range_eq_ascii_nocase(s: &[char], lo: usize, hi: usize, p: &[char]) -> (r: bool)
    requires
        lo <= hi <= s@.len(),
    ensures
        r == eq_ascii_nocase(s@.subrange(lo as int, hi as int), p@),
{
    if hi - lo != p.len() {
        return false;
    }
    let mut k: usize = 0;
    while k < p.len()
        invariant
            hi - lo == p@.len(),
            lo <= hi <= s@.len(),
            k <= p@.len(),
            forall|j: int| 0 <= j < k ==> ascii_fold(s@[lo + j]) == ascii_fold(p@[j]),
        decreases p@.len() - k,
    {
        let a = s[lo + k] as u32;
        let b = p[k] as u32;
        let fa = if 65 <= a && a <= 90 { a + 32 } else { a };
        let fb = if 65 <= b && b <= 90 { b + 32 } else { b };
        if fa != fb {
            assert(ascii_fold(s@.subrange(lo as int, hi as int)[k as int]) != ascii_fold(p@[k as int]));
            return false;
        }
        k = k + 1;
    }
    assert forall|j: int| 0 <= j < p@.len() implies ascii_fold(s@.subrange(lo as int, hi as int)[j])
        == ascii_fold(p@[j]) by {
        assert(s@.subrange(lo as int, hi as int)[j] == s@[lo + j]);
    }
    true
}

/// First index where `p` occurs in `s`, searching from the start (`str::find`
/// with a pattern string, in characters).
pub fn find_sub(s: &[char], p: &[char]) -> (r: Option<usize>)
    ensures
        match r {
            Some(k) => k == find_sub_from(s@, p@, 0),
            None => find_sub_from(s@, p@, 0) == -1,
        },
{
    let mut k: usize = 0;
    while k <= s.len() && p.len() <= s.len() - k
        invariant
            find_sub_from(s@, p@, k as int) == find_sub_from(s@, p@, 0),
        decreases s@.len() + 1 - k,
    {
        if range_eq(s, k, k + p.len(), p) {
            return Some(k);
        }
        k = k + 1;
    }
    None
}

/// Number of UTF-8 bytes in `s[..k]`, or `None` when it exceeds `usize::MAX`.
pub fn byte_offset(s: &[char], k: usize) -> (r: Option<usize>)
    requires
        k <= s@.len(),
    ensures
        match r {
            Some(n) => n == byte_len(s@.take(k as int)),
            None => byte_len(s@.take(k as int)) > usize::MAX,
        },
{
    let mut n: usize = 0;
    let mut j: usize = 0;
    while j < k
        invariant
            j <= k <= s@.len(),
            n == byte_len(s@.take(j as int)),
        decreases k - j,
    {
        let c = s[j] as u32;
        let w: usize = if c < 0x80 { 1 } else if c < 0x800 { 2 } else if c < 0x10000 { 3 } else { 4 };
        assert(s@.take(j + 1).drop_last() =~= s@.take(j as int));
        if n > usize::MAX - w {
            proof {
                lemma_byte_len_prefix_monotone(s@, (j + 1) as int, k as int);
            }
            return None;
        }
        n = n + w;
        j = j + 1;
    }
    Some(n)
}

pub proof fn lemma_byte_len_prefix_monotone(s: Seq<char>, a: int, b: int)
    requires
        0 <= a <= b <= s.len(),
    ensures
        byte_len(s.take(a)) <= byte_len(s.take(b)),
    decreases b - a,
{
    if a < b {
        lemma_byte_len_prefix_monotone(s, a, b - 1);
        assert(s.take(b).drop_last() =~= s.take(b - 1));
    }
}

/// The characters of `s` (`str::chars` collected into a vector).
#[verifier::external_body]
pub(crate) fn chars_of(s: &str) -> (r: Vec<char>)
    ensures
        r@ == s@,
{
    s.chars().collect()
}

/// A string holding the characters of `s` (`FromIterator<char>` for `String`).
#[verifier::external_body]
pub(crate) fn string_of(s: &[char]) -> (r: String)
    ensures
        r@ == s@,
{
    s.iter().collect()
}

/// A string holding the characters of `s[lo..hi]`.
pub fn string_of_range(s: &[char], lo: usize, hi: usize) -> (r: String)
    requires
        lo <= hi <= s@.len(),
    ensures
        r@ == s@.subrange(lo as int, hi as int),
{
    let mut v: Vec<char> = Vec::new();
    let mut k = lo;
    while k < hi
        invariant
            lo <= k <= hi <= s@.len(),
            v@ =~= s@.subrange(lo as int, k as int),
        decreases hi - k,
    {
        v.push(s[k]);
        k = k + 1;
    }
    string_of(v.as_slice())
}

/// The lines of `s` (`str::lines`), as owned strings.
pub fn split_lines(s: &str) -> (r: Vec<String>)
    ensures
        strs_view(r@) == lines_of(s@),
{
    let cs = chars_of(s);
    let mut r: Vec<String> = Vec::new();
    let mut i: usize = 0;
    while i < cs.len()
        invariant
            cs@ == s@,
            i <= cs@.len(),
            lines_of(s@) == strs_view(r@) + lines_from(s@, i as int),
        decreases cs@.len() - i,
    {
        proof {
            lemma_find_from_bounds(cs@, '\n', i as int);
        }
        let j = find_char_from(cs.as_slice(), '\n', i);
        let ghost old_r = r@;
        if j >= cs.len() {
            let line = string_of_range(cs.as_slice(), i, j);
            r.push(line);
            assert(strs_view(r@) =~= strs_view(old_r).push(line@));
            assert(lines_from(s@, i as int) =~= seq![s@.subrange(i as int, s@.len() as int)]);
            assert(lines_from(s@, j as int) =~= Seq::<Seq<char>>::empty());
            assert(strs_view(old_r) + lines_from(s@, i as int) =~= strs_view(r@) + lines_from(s@, j as int));
            i = j;
        } else {
            let end = if j > i && cs[j - 1] == '\r' { j - 1 } else { j };
            let line = string_of_range(cs.as_slice(), i, end);
            r.push(line);
            assert(line@ =~= strip_cr(s@.subrange(i as int, j as int)));
            assert(strs_view(r@) =~= strs_view(old_r).push(line@));
            assert(lines_from(s@, i as int) == seq![strip_cr(s@.subrange(i as int, j as int))] + lines_from(s@, j + 1));
            assert(strs_view(old_r) + lines_from(s@, i as int) =~= strs_view(r@) + lines_from(s@, j + 1));
            i = j + 1;
        }
    }
    assert(lines_from(s@, i as int) =~= Seq::<Seq<char>>::empty());
    assert(strs_view(r@) + Seq::<Seq<char>>::empty() =~= strs_view(r@));
    r
}

/// Whether some string of `v` equals `s`.
pub fn contains_str(v: &Vec<String>, s: &str) -> (r: bool)
    ensures
        r == strs_view(v@).contains(s@),
{
    let target = String::from_str(s);
    let mut i: usize = 0;
    while i < v.len()
        invariant
            i <= v.len(),
            target@ == s@,
            forall|k: int| 0 <= k < i ==> v@[k]@ != s@,
        decreases v.len() - i,
    {
        if v[i] == target {
            proof {
                lemma_strs_view(v@);
                assert(strs_view(v@)[i as int] == s@);
            }
            return true;
        }
        i += 1;
    }
    proof {
        lemma_strs_view(v@);
        assert forall|k: int| 0 <= k < strs_view(v@).len() implies strs_view(v@)[k] != s@ by {
            assert(strs_view(v@)[k] == v@[k]@);
        }
    }
    false
}

/// Whether `a` and `b` hold the same text.
pub fn str_eq(a: &str, b: &str) -> (r: bool)
    ensures
        r == (a@ == b@),
{
    let x = String::from_str(a);
    let y = String::from_str(b);
    x == y
}

/// The trimmed pieces of `s` separated by `c`
/// (`s.split(c).map(|p| p.trim().to_string())`).
pub fn split_trimmed(s: &str, c: char) -> (r: Vec<String>)
    ensures
        strs_view(r@) == split_on(s@, c).map_values(|p: Seq<char>| trim(p)),
{
    let cs = chars_of(s);
    let spans = split_spans(cs.as_slice(), c);
    let mut r: Vec<String> = Vec::new();
    let mut k: usize = 0;
    while k < spans.len()
        invariant
            cs@ == s@,
            k <= spans@.len(),
            spans_inside(cs@, spans@),
            span_texts(cs@, spans@) == split_on(s@, c),
            strs_view(r@) =~= span_texts(cs@, spans@).take(k as int).map_values(|p: Seq<char>| trim(p)),
        decreases spans@.len() - k,
    {
        let (a, b) = spans[k];
        assert(spans@[k as int].0 <= spans@[k as int].1 <= cs@.len());
        let ghost piece = cs@.subrange(a as int, b as int);
        let pv = sub_chars(cs.as_slice(), a, b);
        let (lo, hi) = trim_bounds(pv.as_slice());
        let t = string_of_range(cs.as_slice(), a + lo, a + hi);
        proof {
            assert(t@ =~= trim(piece));
            assert(span_texts(cs@, spans@)[k as int] == piece);
            assert(span_texts(cs@, spans@).take(k + 1) =~= span_texts(cs@, spans@).take(k as int).push(piece));
        }
        let ghost old_r = r@;
        r.push(t);
        proof {
            assert(strs_view(r@) =~= strs_view(old_r).push(t@));
        }
        k += 1;
    }
    assert(span_texts(cs@, spans@).take(k as int) =~= span_texts(cs@, spans@));
    r
}

/// The characters of `s[lo..hi]` in a vector of their own.
pub fn sub_chars(s: &[char], lo: usize, hi: usize) -> (r: Vec<char>)
    requires
        lo <= hi <= s@.len(),
    ensures
        r@ == s@.subrange(lo as int, hi as int),
{
    let mut v: Vec<char> = Vec::new();
    let mut k = lo;
    while k < hi
        invariant
            lo <= k <= hi <= s@.len(),
            v@ =~= s@.subrange(lo as int, k as int),
        decreases hi - k,
    {
        v.push(s[k]);
        k = k + 1;
    }
    v
}

/// What `str::to_lowercase` returns for a text: the lowercase mapping of
/// each character, by the Unicode tables.
pub uninterp spec fn lowercase(s: Seq<char>) -> Seq<char>;

/// `str::to_lowercase`; its result is named [`lowercase`] of the argument.
#[verifier::external_body]
pub(crate) fn to_lowercase(s: &str) -> (r: String)
    ensures
        r@ == lowercase(s@),
{
    s.to_lowercase()
}

/// What `str::to_uppercase` returns for a text: the uppercase mapping of
/// each character, by the Unicode tables.
pub uninterp spec fn uppercase(s: Seq<char>) -> Seq<char>;

/// `str::to_uppercase`; its result is named [`uppercase`] of the argument.
#[verifier::external_body]
pub(crate) fn to_uppercase(s: &str) -> (r: String)
    ensures
        r@ == uppercase(s@),
{
    s.to_uppercase()
}

/// Whether `s` begins with `p` (`str::starts_with`).
pub fn str_starts_with(s: &str, p: &str) -> (r: bool)
    ensures
        r == starts_with(s@, p@),
{
    let cs = chars_of(s);
    let ps = chars_of(p);
    let r = range_starts_with(cs.as_slice(), 0, cs.len(), ps.as_slice());
    assert(cs@.subrange(0, cs@.len() as int) =~= cs@);
    r
}

/// The number of pieces of `s` separated by `c` (`s.split(c).count()`).
pub fn split_count(s: &str, c: char) -> (n: usize)
    ensures
        n == split_on(s@, c).len(),
{
    let cs = chars_of(s);
    let spans = split_spans(cs.as_slice(), c);
    spans.len()
}

} // verus!
