//! Character-level text utilities.
//!
//! The extraction rules work on text as sequences of characters. Every
//! operation here is specified over `Seq<char>` and the executable code is
//! proved to match. The only trusted items are the two conversions between
//! `str`/`String` and character vectors, and a case-folding wrapper.

use vstd::prelude::*;

verus! {

/// Whitespace as trimming understands it: the Unicode white-space code
/// points, the same set the standard library's trimming uses — markup often
/// carries non-breaking spaces, and they trim like blanks.
pub open spec fn spec_is_space(c: char) -> bool {
    ||| c == ' '
    ||| ('\u{9}' <= c && c <= '\u{d}')
    ||| c == '\u{85}'
    ||| c == '\u{a0}'
    ||| c == '\u{1680}'
    ||| ('\u{2000}' <= c && c <= '\u{200a}')
    ||| c == '\u{2028}'
    ||| c == '\u{2029}'
    ||| c == '\u{202f}'
    ||| c == '\u{205f}'
    ||| c == '\u{3000}'
}

/// Executable mirror of [`spec_is_space`].
pub fn is_space(c: char) -> (r: bool)
    ensures
        r == spec_is_space(c),
{
    c == ' ' || ('\u{9}' <= c && c <= '\u{d}') || c == '\u{85}' || c == '\u{a0}' || c
        == '\u{1680}' || ('\u{2000}' <= c && c <= '\u{200a}') || c == '\u{2028}' || c
        == '\u{2029}' || c == '\u{202f}' || c == '\u{205f}' || c == '\u{3000}'
}

/// Relies on `str::chars` of std: it yields exactly the string's characters
/// in order, which is the string's abstract value.
#[verifier::external_body]
pub fn chars_of(s: &str) -> (r: Vec<char>)
    ensures
        r@ == s@,
{
    s.chars().collect()
}

/// Relies on `String`'s `FromIterator<char>` of std: collecting characters
/// builds the string of exactly those characters in order.
#[verifier::external_body]
pub fn string_from_chars(cs: &Vec<char>) -> (r: String)
    ensures
        r@ == cs@,
{
    cs.iter().collect()
}

/// What `str::to_lowercase` of std returns. The folding tables are too large
/// to restate; the result is a function of the characters alone.
pub uninterp spec fn lower_of(s: Seq<char>) -> Seq<char>;

/// Relies on `str::to_lowercase` of std: the result depends on the input
/// characters alone, and an empty input folds to an empty output.
#[verifier::external_body]
pub fn lowercase(s: &str) -> (r: String)
    ensures
        r@ == lower_of(s@),
        s@.len() == 0 ==> r@.len() == 0,
{
    s.to_lowercase()
}

/// Equality of a character vector with a string slice's characters.
pub fn chars_eq_str(v: &Vec<char>, s: &str) -> (r: bool)
    ensures
        r == (v@ == s@),
{
    let sv = chars_of(s);
    chars_eq(v, &sv)
}

/// Element-wise equality of two character vectors.
pub fn chars_eq(a: &Vec<char>, b: &Vec<char>) -> (r: bool)
    ensures
        r == (a@ == b@),
{
    if a.len() != b.len() {
        return false;
    }
    for i in 0..a.len()
        invariant
            a.len() == b.len(),
            forall|j: int| 0 <= j < i ==> a@[j] == b@[j],
    {
        if a[i] != b[i] {
            return false;
        }
    }
    proof {
        assert(a@ =~= b@);
    }
    true
}

/// The input without its leading whitespace.
pub open spec fn spec_trim_start(s: Seq<char>) -> Seq<char>
    decreases s.len(),
{
    if s.len() > 0 && spec_is_space(s[0]) {
        spec_trim_start(s.drop_first())
    } else {
        s
    }
}

/// The input without its trailing whitespace.
pub open spec fn spec_trim_end(s: Seq<char>) -> Seq<char>
    decreases s.len(),
{
    if s.len() > 0 && spec_is_space(s.last()) {
        spec_trim_end(s.drop_last())
    } else {
        s
    }
}

/// The input without leading and trailing whitespace.
pub open spec fn spec_trim(s: Seq<char>) -> Seq<char> {
    spec_trim_end(spec_trim_start(s))
}

proof fn lemma_trim_start_skip(s: Seq<char>, i: int)
    requires
        0 <= i <= s.len(),
        forall|j: int| 0 <= j < i ==> spec_is_space(s[j]),
        i == s.len() || !spec_is_space(s[i]),
    ensures
        spec_trim_start(s) == s.skip(i),
    decreases i,
{
    if i == 0 {
        assert(s.skip(0) =~= s);
    } else {
        lemma_trim_start_skip(s.drop_first(), i - 1);
        assert(s.drop_first().skip(i - 1) =~= s.skip(i));
    }
}

proof fn lemma_trim_end_take(s: Seq<char>, i: int)
    requires
        0 <= i <= s.len(),
        forall|j: int| i <= j < s.len() ==> spec_is_space(s[j]),
        i == 0 || !spec_is_space(s[i - 1]),
    ensures
        spec_trim_end(s) == s.take(i),
    decreases s.len() - i,
{
    if i == s.len() {
        assert(s.take(i) =~= s);
    } else {
        lemma_trim_end_take(s.drop_last(), i);
        assert(s.drop_last().take(i) =~= s.take(i));
    }
}

/// Copy of the input without leading and trailing whitespace.
pub fn trim_chars(v: &Vec<char>) -> (r: Vec<char>)
    ensures
        r@ == spec_trim(v@),
{
    let mut start: usize = 0;
    while start < v.len() && is_space(v[start])
        invariant
            0 <= start <= v.len(),
            forall|j: int| 0 <= j < start ==> spec_is_space(v@[j]),
        decreases v.len() - start,
    {
        start += 1;
    }
    proof {
        lemma_trim_start_skip(v@, start as int);
    }
    let mut end: usize = v.len();
    while end > start && is_space(v[end - 1])
        invariant
            start <= end <= v.len(),
            forall|j: int| end <= j < v.len() ==> spec_is_space(v@[j]),
        decreases end,
    {
        end -= 1;
    }
    let mut r: Vec<char> = Vec::new();
    let mut i: usize = start;
    while i < end
        invariant
            start <= i <= end <= v.len(),
            r@ =~= v@.subrange(start as int, i as int),
        decreases end - i,
    {
        r.push(v[i]);
        i += 1;
    }
    proof {
        let t = v@.skip(start as int);
        if end == start {
            assert(forall|j: int| 0 <= j < t.len() ==> spec_is_space(t[j]));
            lemma_trim_end_take(t, 0);
        } else {
            assert(!spec_is_space(t[end - start - 1]));
            lemma_trim_end_take(t, end - start as int);
        }
        assert(r@ =~= t.take(end - start as int));
    }
    r
}

/// Index of the first occurrence of `c` at or after `i`, or the length when
/// there is none.
pub open spec fn spec_find_at(s: Seq<char>, c: char, i: int) -> int
    decreases s.len() - i,
{
    if i < 0 || i >= s.len() {
        s.len() as int
    } else if s[i] == c {
        i
    } else {
        spec_find_at(s, c, i + 1)
    }
}

/// Index of the first occurrence of `c`, or the length when there is none.
pub open spec fn spec_find(s: Seq<char>, c: char) -> int {
    spec_find_at(s, c, 0)
}

pub proof fn lemma_find_at_bounds(s: Seq<char>, c: char, i: int)
    requires
        0 <= i <= s.len(),
    ensures
        i <= spec_find_at(s, c, i) <= s.len(),
        spec_find_at(s, c, i) < s.len() ==> s[spec_find_at(s, c, i)] == c,
        forall|j: int| i <= j < spec_find_at(s, c, i) ==> s[j] != c,
    decreases s.len() - i,
{
    if i < s.len() && s[i] != c {
        lemma_find_at_bounds(s, c, i + 1);
    }
}

/// Executable search for the first occurrence of `c`.
pub fn find_char(v: &Vec<char>, c: char) -> (r: usize)
    ensures
        r == spec_find(v@, c),
{
    let mut i: usize = 0;
    while i < v.len() && v[i] != c
        invariant
            0 <= i <= v.len(),
            forall|j: int| 0 <= j < i ==> v@[j] != c,
        decreases v.len() - i,
    {
        i += 1;
    }
    proof {
        lemma_find_at_bounds(v@, c, 0);
    }
    i
}

/// Whether `c` occurs in `s`.
pub open spec fn spec_contains_char(s: Seq<char>, c: char) -> bool {
    spec_find(s, c) < s.len()
}

/// Executable test for [`spec_contains_char`].
pub fn contains_char(v: &Vec<char>, c: char) -> (r: bool)
    ensures
        r == spec_contains_char(v@, c),
{
    let i = find_char(v, c);
    i < v.len()
}

/// How many times `c` occurs in `s` at or after `i`.
pub open spec fn spec_count_at(s: Seq<char>, c: char, i: int) -> nat
    decreases s.len() - i,
{
    if i < 0 || i >= s.len() {
        0
    } else {
        (if s[i] == c {
            1nat
        } else {
            0nat
        }) + spec_count_at(s, c, i + 1)
    }
}

/// How many times `c` occurs in `s`.
pub open spec fn spec_count(s: Seq<char>, c: char) -> nat {
    spec_count_at(s, c, 0)
}

proof fn lemma_count_at_bound(s: Seq<char>, c: char, i: int)
    requires
        0 <= i <= s.len(),
    ensures
        spec_count_at(s, c, i) <= s.len() - i,
    decreases s.len() - i,
{
    if i < s.len() {
        lemma_count_at_bound(s, c, i + 1);
    }
}

/// Executable count of the occurrences of `c`.
pub fn count_char(v: &Vec<char>, c: char) -> (r: usize)
    ensures
        r == spec_count(v@, c),
{
    proof {
        lemma_count_at_bound(v@, c, 0);
    }
    let mut n: usize = 0;
    let mut i: usize = v.len();
    while i > 0
        invariant
            0 <= i <= v.len(),
            n == spec_count_at(v@, c, i as int),
            n <= v.len() - i,
        decreases i,
    {
        i -= 1;
        if v[i] == c {
            n += 1;
        }
        proof {
            lemma_count_at_bound(v@, c, i as int);
        }
    }
    n
}

/// The prefix of `s` before the first occurrence of `c`; all of `s` when `c`
/// does not occur. This is what taking the first piece of a split yields.
pub open spec fn spec_before_first(s: Seq<char>, c: char) -> Seq<char> {
    s.take(spec_find(s, c))
}

/// Executable mirror of [`spec_before_first`].
pub fn before_first(v: &Vec<char>, c: char) -> (r: Vec<char>)
    ensures
        r@ == spec_before_first(v@, c),
{
    let end = find_char(v, c);
    proof {
        lemma_find_at_bounds(v@, c, 0);
    }
    let mut r: Vec<char> = Vec::new();
    let mut i: usize = 0;
    while i < end
        invariant
            0 <= i <= end <= v.len(),
            r@ =~= v@.subrange(0, i as int),
        decreases end - i,
    {
        r.push(v[i]);
        i += 1;
    }
    proof {
        assert(r@ =~= v@.take(end as int));
    }
    r
}

/// Index of the last occurrence of `c` in `s`, or `-1` when there is none.
pub open spec fn spec_rfind(s: Seq<char>, c: char) -> int
    decreases s.len(),
{
    if s.len() == 0 {
        -1
    } else if s.last() == c {
        s.len() - 1
    } else {
        spec_rfind(s.drop_last(), c)
    }
}

proof fn lemma_rfind_bounds(s: Seq<char>, c: char)
    ensures
        -1 <= spec_rfind(s, c) < s.len(),
        spec_rfind(s, c) >= 0 ==> s[spec_rfind(s, c)] == c,
        forall|j: int| spec_rfind(s, c) < j < s.len() ==> s[j] != c,
    decreases s.len(),
{
    if s.len() > 0 && s.last() != c {
        lemma_rfind_bounds(s.drop_last(), c);
        assert(forall|j: int| 0 <= j < s.len() - 1 ==> s.drop_last()[j] == s[j]);
    }
}

/// The suffix of `s` after the last occurrence of `c`; all of `s` when `c`
/// does not occur. This is the final piece of a split, used to derive a
/// record identifier from the last segment of a URL path.
pub open spec fn spec_after_last(s: Seq<char>, c: char) -> Seq<char> {
    s.skip(spec_rfind(s, c) + 1)
}

/// Executable mirror of [`spec_after_last`].
pub fn after_last(v: &Vec<char>, c: char) -> (r: Vec<char>)
    ensures
        r@ == spec_after_last(v@, c),
{
    proof {
        lemma_rfind_bounds(v@, c);
    }
    let mut start: usize = v.len();
    while start > 0 && v[start - 1] != c
        invariant
            0 <= start <= v.len(),
            forall|j: int| start <= j < v.len() ==> v@[j] != c,
        decreases start,
    {
        start -= 1;
    }
    let mut r: Vec<char> = Vec::new();
    let mut i: usize = start;
    while i < v.len()
        invariant
            start <= i <= v.len(),
            r@ =~= v@.subrange(start as int, i as int),
        decreases v.len() - i,
    {
        r.push(v[i]);
        i += 1;
    }
    proof {
        if start > 0 {
            assert(v@[start - 1] == c);
        }
        assert(r@ =~= v@.skip(start as int));
    }
    r
}

/// The pieces of `s` between occurrences of the separator `c`, in order.
/// A separator at either end or two adjacent separators yield empty pieces,
/// and a string without the separator is a single piece.
pub open spec fn spec_split(s: Seq<char>, c: char) -> Seq<Seq<char>>
    decreases s.len(),
{
    let i = spec_find(s, c);
    if i == s.len() {
        seq![s]
    } else if 0 <= i < s.len() {
        seq![s.take(i)] + spec_split(s.skip(i + 1), c)
    } else {
        seq![]
    }
}

/// Executable mirror of [`spec_split`].
pub fn split_chars(v: &Vec<char>, c: char) -> (r: Vec<Vec<char>>)
    ensures
        r.deep_view() == spec_split(v@, c),
        r.len() >= 1,
{
    let mut r: Vec<Vec<char>> = Vec::new();
    let mut rest: Vec<char> = Vec::new();
    let mut i: usize = 0;
    while i < v.len()
        invariant
            0 <= i <= v.len(),
            rest@ =~= v@.subrange(0, i as int),
        decreases v.len() - i,
    {
        rest.push(v[i]);
        i += 1;
    }
    proof {
        assert(rest@ =~= v@);
    }
    #[verifier::loop_isolation(true)]
    loop
        invariant_except_break
            r.deep_view() + spec_split(rest@, c) =~= spec_split(v@, c),
        ensures
            r.deep_view() == spec_split(v@, c),
            r.len() >= 1,
        decreases rest@.len(),
    {
        let cut = find_char(&rest, c);
        proof {
            lemma_find_at_bounds(rest@, c, 0);
        }
        if cut == rest.len() {
            let ghost old_r = r.deep_view();
            let ghost rv = rest@;
            r.push(rest);
            proof {
                assert(spec_split(rv, c) == seq![rv]);
                assert(r.deep_view() =~~= old_r + seq![rv]);
            }
            break;
        }
        let piece = before_first(&rest, c);
        let mut next: Vec<char> = Vec::new();
        let mut j: usize = cut + 1;
        while j < rest.len()
            invariant
                cut + 1 <= j <= rest.len(),
                next@ =~= rest@.subrange(cut + 1, j as int),
            decreases rest.len() - j,
        {
            next.push(rest[j]);
            j += 1;
        }
        let ghost old_r = r.deep_view();
        let ghost old_rest = rest@;
        r.push(piece);
        proof {
            assert(next@ =~= old_rest.skip(cut + 1));
            assert(r.deep_view() =~~= old_r + seq![old_rest.take(cut as int)]);
            assert(spec_split(old_rest, c) == seq![old_rest.take(cut as int)] + spec_split(
                old_rest.skip(cut + 1),
                c,
            ));
            assert(old_r + spec_split(old_rest, c) =~~= r.deep_view() + spec_split(next@, c));
        }
        rest = next;
    }
    proof {
        lemma_split_len(v@, c);
        assert(r.deep_view().len() == r.len());
    }
    r
}

proof fn lemma_split_len(s: Seq<char>, c: char)
    ensures
        spec_split(s, c).len() >= 1,
    decreases s.len(),
{
    lemma_find_at_bounds(s, c, 0);
    let i = spec_find(s, c);
    if i < s.len() {
        lemma_split_len(s.skip(i + 1), c);
    }
}

/// A string that contains the separator splits into at least two pieces.
pub proof fn lemma_split_contains_len(s: Seq<char>, c: char)
    requires
        spec_contains_char(s, c),
    ensures
        spec_split(s, c).len() >= 2,
{
    lemma_find_at_bounds(s, c, 0);
    lemma_split_len(s.skip(spec_find(s, c) + 1), c);
}

/// Split on `c`, trim each piece, and drop the pieces that are then empty.
/// This is the shape shared by meaning lists and reading lists.
pub open spec fn spec_split_clean(s: Seq<char>, c: char) -> Seq<Seq<char>> {
    spec_clean_pieces(spec_split(s, c), 0)
}

/// The trimmed, non-empty pieces of `parts` from index `i` on.
pub open spec fn spec_clean_pieces(parts: Seq<Seq<char>>, i: int) -> Seq<Seq<char>>
    decreases parts.len() - i,
{
    if i < 0 || i >= parts.len() {
        seq![]
    } else {
        let t = spec_trim(parts[i]);
        (if t.len() > 0 {
            seq![t]
        } else {
            seq![]
        }) + spec_clean_pieces(parts, i + 1)
    }
}

/// Executable mirror of [`spec_split_clean`].
pub fn split_clean(v: &Vec<char>, c: char) -> (r: Vec<Vec<char>>)
    ensures
        r.deep_view() == spec_split_clean(v@, c),
{
    let parts = split_chars(v, c);
    let mut r: Vec<Vec<char>> = Vec::new();
    let n = parts.len();
    for i in 0..n
        invariant
            n == parts.len(),
            parts.deep_view() == spec_split(v@, c),
            r.deep_view() + spec_clean_pieces(parts.deep_view(), i as int) =~= spec_split_clean(
                v@,
                c,
            ),
    {
        let t = trim_chars(&parts[i]);
        let ghost old_r = r.deep_view();
        proof {
            assert(parts.deep_view()[i as int] == parts[i as int]@);
        }
        let ghost tv = t@;
        if t.len() > 0 {
            r.push(t);
            proof {
                assert(r.deep_view() =~~= old_r + seq![tv]);
            }
        }
    }
    r
}

/// Whether `needle` occurs as a contiguous run inside `hay`. An empty needle
/// always occurs.
pub open spec fn spec_contains_seq(hay: Seq<char>, needle: Seq<char>) -> bool {
    exists|i: int|
        0 <= i <= hay.len() - needle.len() && (#[trigger] hay.subrange(i, i + needle.len()))
            =~= needle
}

/// Executable substring search for [`spec_contains_seq`].
pub fn contains_seq(hay: &Vec<char>, needle: &Vec<char>) -> (r: bool)
    ensures
        r == spec_contains_seq(hay@, needle@),
{
    let n = hay.len();
    let m = needle.len();
    if m > n {
        return false;
    }
    let mut i: usize = 0;
    while i <= n - m
        invariant
            m <= n,
            n == hay@.len(),
            m == needle@.len(),
            0 <= i <= n - m + 1,
            forall|k: int|
                0 <= k < i ==> !((#[trigger] hay@.subrange(k, k + needle@.len())) =~= needle@),
        decreases n + 1 - m - i,
    {
        let mut j: usize = 0;
        while j < m && hay[i + j] == needle[j]
            invariant
                m <= n,
                n == hay@.len(),
                m == needle@.len(),
                0 <= i <= n - m,
                0 <= j <= m,
                forall|t: int| 0 <= t < j ==> hay@[i + t] == needle@[t],
            decreases m - j,
        {
            j += 1;
        }
        if j == m {
            proof {
                assert(hay@.subrange(i as int, i + needle@.len()) =~= needle@);
            }
            return true;
        }
        proof {
            assert(hay@.subrange(i as int, i + needle@.len())[j as int] != needle@[j as int]);
        }
        i += 1;
    }
    false
}

/// Index of the first occurrence of `pat` as a contiguous run at or after
/// `from`, or the length of `s` when there is none.
pub open spec fn spec_find_seq_at(s: Seq<char>, pat: Seq<char>, from: int) -> int
    decreases s.len() - from,
{
    if pat.len() == 0 || from < 0 || from > s.len() - pat.len() {
        s.len() as int
    } else if s.subrange(from, from + pat.len()) == pat {
        from
    } else {
        spec_find_seq_at(s, pat, from + 1)
    }
}

proof fn lemma_find_seq_at_bounds(s: Seq<char>, pat: Seq<char>, from: int)
    requires
        0 <= from <= s.len(),
        pat.len() >= 1,
    ensures
        from <= spec_find_seq_at(s, pat, from),
        spec_find_seq_at(s, pat, from) <= s.len(),
        spec_find_seq_at(s, pat, from) < s.len() ==> spec_find_seq_at(s, pat, from) + pat.len()
            <= s.len() && s.subrange(
            spec_find_seq_at(s, pat, from),
            spec_find_seq_at(s, pat, from) + pat.len(),
        ) == pat,
        forall|k: int|
            from <= k < spec_find_seq_at(s, pat, from) && k + pat.len() <= s.len() ==> (
            #[trigger] s.subrange(k, k + pat.len())) != pat,
    decreases s.len() - from,
{
    if !(from > s.len() - pat.len()) && s.subrange(from, from + pat.len()) != pat {
        lemma_find_seq_at_bounds(s, pat, from + 1);
    }
}

/// `s` with every occurrence of `pat` removed, scanning left to right over
/// non-overlapping occurrences. An empty pattern removes nothing.
pub open spec fn spec_remove_all(s: Seq<char>, pat: Seq<char>) -> Seq<char>
    decreases s.len(),
{
    if pat.len() == 0 {
        s
    } else {
        let i = spec_find_seq_at(s, pat, 0);
        if i == s.len() {
            s
        } else if 0 <= i && i + pat.len() <= s.len() {
            s.take(i) + spec_remove_all(s.skip(i + pat.len()), pat)
        } else {
            s
        }
    }
}

/// Executable mirror of [`spec_remove_all`]: the input with every occurrence
/// of the pattern string deleted.
pub fn remove_all(v: &Vec<char>, pat: &Vec<char>) -> (r: Vec<char>)
    ensures
        r@ == spec_remove_all(v@, pat@),
    decreases v@.len(),
{
    if pat.len() == 0 {
        let mut r: Vec<char> = Vec::new();
        let mut i: usize = 0;
        while i < v.len()
            invariant
                0 <= i <= v.len(),
                r@ =~= v@.subrange(0, i as int),
            decreases v.len() - i,
        {
            r.push(v[i]);
            i += 1;
        }
        proof {
            assert(r@ =~= v@);
        }
        return r;
    }
    proof {
        lemma_find_seq_at_bounds(v@, pat@, 0);
    }
    // scan for the first occurrence of pat
    let n = v.len();
    let m = pat.len();
    let mut i: usize = 0;
    let mut found: bool = false;
    while !found && m <= n && i <= n - m
        invariant
            n == v@.len(),
            m == pat@.len(),
            m >= 1,
            0 <= i <= n,
            forall|k: int|
                0 <= k < i && k + m <= n ==> (#[trigger] v@.subrange(k, k + pat@.len())) != pat@,
            found ==> i + m <= n && v@.subrange(i as int, i + pat@.len()) =~= pat@,
        decreases n - i + (if found {
            0int
        } else {
            1int
        }),
    {
        let mut j: usize = 0;
        while j < m && v[i + j] == pat[j]
            invariant
                n == v@.len(),
                m == pat@.len(),
                0 <= i,
                i + m <= n,
                0 <= j <= m,
                forall|t: int| 0 <= t < j ==> v@[i + t] == pat@[t],
            decreases m - j,
        {
            j += 1;
        }
        if j == m {
            found = true;
            proof {
                assert(v@.subrange(i as int, i + pat@.len()) =~= pat@);
            }
        } else {
            proof {
                assert(v@.subrange(i as int, i + pat@.len())[j as int] != pat@[j as int]);
            }
            i += 1;
        }
    }
    let ghost f = spec_find_seq_at(v@, pat@, 0);
    if !found {
        proof {
            if f < v@.len() {
                assert(v@.subrange(f, f + pat@.len()) =~= pat@);
            }
        }
        let mut r: Vec<char> = Vec::new();
        let mut k: usize = 0;
        while k < v.len()
            invariant
                0 <= k <= v.len(),
                r@ =~= v@.subrange(0, k as int),
            decreases v.len() - k,
        {
            r.push(v[k]);
            k += 1;
        }
        proof {
            assert(r@ =~= v@);
        }
        return r;
    }
    proof {
        assert(f == i) by {
            if f < i {
                assert(v@.subrange(f, f + pat@.len()) == pat@);
            }
            if i < f {
                assert(v@.subrange(i as int, i + pat@.len()) == pat@);
            }
        }
    }
    let mut tail: Vec<char> = Vec::new();
    let mut k: usize = i + m;
    while k < v.len()
        invariant
            i + m <= k <= v.len(),
            tail@ =~= v@.subrange(i + m, k as int),
        decreases v.len() - k,
    {
        tail.push(v[k]);
        k += 1;
    }
    proof {
        assert(tail@ =~= v@.skip(i + m));
    }
    let rest = remove_all(&tail, pat);
    let mut r: Vec<char> = Vec::new();
    let mut k2: usize = 0;
    while k2 < i
        invariant
            0 <= k2 <= i <= v.len(),
            r@ =~= v@.subrange(0, k2 as int),
        decreases i - k2,
    {
        r.push(v[k2]);
        k2 += 1;
    }
    let mut k3: usize = 0;
    while k3 < rest.len()
        invariant
            r@ =~= v@.subrange(0, i as int) + rest@.subrange(0, k3 as int),
            0 <= k3 <= rest.len(),
        decreases rest.len() - k3,
    {
        r.push(rest[k3]);
        k3 += 1;
    }
    proof {
        assert(rest@.subrange(0, rest@.len() as int) =~= rest@);
        assert(r@ =~= v@.take(i as int) + spec_remove_all(v@.skip(i + pat@.len()), pat@));
    }
    r
}

/// Value of a digit string, most significant first, without bounds.
pub open spec fn spec_digits_value(s: Seq<char>) -> int
    decreases s.len(),
{
    if s.len() == 0 {
        0
    } else {
        spec_digits_value(s.drop_last()) * 10 + spec_digit(s.last())
    }
}

/// Numeric value of a single character digit; `-1` marks a non-digit.
pub open spec fn spec_digit(c: char) -> int {
    if '0' <= c && c <= '9' {
        (c as u32) as int - ('0' as u32) as int
    } else {
        -1
    }
}

/// Whether every character of `s` is a decimal digit.
pub open spec fn spec_all_digits(s: Seq<char>) -> bool {
    forall|j: int| 0 <= j < s.len() ==> spec_digit(#[trigger] s[j]) >= 0
}

/// What parsing `s` as an unsigned 32-bit decimal integer yields: an
/// optional leading `+`, then at least one digit, and a value within range;
/// anything else fails.
pub open spec fn spec_parse_u32(s: Seq<char>) -> Option<u32> {
    let t = if s.len() > 0 && s[0] == '+' {
        s.drop_first()
    } else {
        s
    };
    if t.len() == 0 || !spec_all_digits(t) {
        None
    } else if spec_digits_value(t) > u32::MAX {
        None
    } else {
        Some(spec_digits_value(t) as u32)
    }
}

/// What parsing `s` as a signed 32-bit decimal integer yields: an optional
/// leading `+` or `-`, then at least one digit, and a value within range.
pub open spec fn spec_parse_i32(s: Seq<char>) -> Option<i32> {
    let neg = s.len() > 0 && s[0] == '-';
    let t = if s.len() > 0 && (s[0] == '+' || s[0] == '-') {
        s.drop_first()
    } else {
        s
    };
    if t.len() == 0 || !spec_all_digits(t) {
        None
    } else {
        let v = if neg {
            -spec_digits_value(t)
        } else {
            spec_digits_value(t)
        };
        if v < i32::MIN || v > i32::MAX {
            None
        } else {
            Some(v as i32)
        }
    }
}

proof fn lemma_digits_value_nonneg(s: Seq<char>)
    requires
        spec_all_digits(s),
    ensures
        spec_digits_value(s) >= 0,
    decreases s.len(),
{
    if s.len() > 0 {
        assert(spec_all_digits(s.drop_last())) by {
            assert(forall|j: int| 0 <= j < s.len() - 1 ==> s.drop_last()[j] == s[j]);
        }
        lemma_digits_value_nonneg(s.drop_last());
    }
}

proof fn lemma_digits_value_step(s: Seq<char>, i: int)
    requires
        0 <= i < s.len(),
    ensures
        spec_digits_value(s.take(i + 1)) == spec_digits_value(s.take(i)) * 10 + spec_digit(s[i]),
{
    assert(s.take(i + 1).drop_last() =~= s.take(i));
    assert(s.take(i + 1).last() == s[i]);
}

proof fn lemma_digits_value_grows(s: Seq<char>, i: int)
    requires
        0 <= i <= s.len(),
        spec_digits_value(s.take(i)) > u32::MAX,
        spec_all_digits(s.take(i)),
    ensures
        spec_all_digits(s) ==> spec_digits_value(s) > u32::MAX,
    decreases s.len() - i,
{
    if spec_all_digits(s) {
        if i == s.len() {
            assert(s.take(i) =~= s);
        } else {
            lemma_digits_value_step(s, i);
            lemma_digits_value_nonneg(s.take(i));
            assert(spec_all_digits(s.take(i + 1))) by {
                assert(forall|j: int| 0 <= j < i + 1 ==> s.take(i + 1)[j] == s[j]);
            }
            lemma_digits_value_grows(s, i + 1);
        }
    }
}

/// Executable decimal parse of an unsigned 32-bit integer, mirroring
/// [`spec_parse_u32`].
pub fn parse_u32_chars(v: &Vec<char>) -> (r: Option<u32>)
    ensures
        r == spec_parse_u32(v@),
{
    let mut start: usize = 0;
    if v.len() > 0 && v[0] == '+' {
        start = 1;
    }
    let ghost t = if v@.len() > 0 && v@[0] == '+' {
        v@.drop_first()
    } else {
        v@
    };
    proof {
        assert(t =~= v@.subrange(start as int, v@.len() as int));
    }
    if start == v.len() {
        return None;
    }
    let mut acc: u64 = 0;
    let mut i: usize = start;
    while i < v.len()
        invariant
            0 <= start <= i <= v.len(),
            t =~= v@.subrange(start as int, v@.len() as int),
            spec_all_digits(t.take(i - start)),
            acc == spec_digits_value(t.take(i - start)),
            acc <= u32::MAX,
        decreases v.len() - i,
    {
        let c = v[i];
        if !('0' <= c && c <= '9') {
            proof {
                assert(t[i - start] == c);
            }
            return None;
        }
        let d: u64 = (c as u32 as u64) - ('0' as u32 as u64);
        proof {
            assert(spec_digit(c) == d);
        }
        acc = acc * 10 + d;
        i += 1;
        proof {
            lemma_digits_value_step(t, i - 1 - start as int);
            assert(t.take(i - start).drop_last() =~= t.take(i - 1 - start as int));
            assert(spec_all_digits(t.take(i - start))) by {
                assert(forall|j: int|
                    0 <= j < i - start ==> t.take(i - start as int)[j] == t[j]);
            }
        }
        if acc > 0xffff_ffff {
            proof {
                lemma_digits_value_grows(t, i - start as int);
            }
            return None;
        }
    }
    proof {
        assert(t.take(i - start) =~= t);
    }
    Some(acc as u32)
}

/// Executable decimal parse of a signed 32-bit integer, mirroring
/// [`spec_parse_i32`].
pub fn parse_i32_chars(v: &Vec<char>) -> (r: Option<i32>)
    ensures
        r == spec_parse_i32(v@),
{
    let neg = v.len() > 0 && v[0] == '-';
    let mut start: usize = 0;
    if v.len() > 0 && (v[0] == '+' || v[0] == '-') {
        start = 1;
    }
    let ghost t = if v@.len() > 0 && (v@[0] == '+' || v@[0] == '-') {
        v@.drop_first()
    } else {
        v@
    };
    proof {
        assert(t =~= v@.subrange(start as int, v@.len() as int));
    }
    if start == v.len() {
        return None;
    }
    let mut acc: u64 = 0;
    let mut i: usize = start;
    while i < v.len()
        invariant
            0 <= start <= i <= v.len(),
            t =~= v@.subrange(start as int, v@.len() as int),
            spec_all_digits(t.take(i - start)),
            acc == spec_digits_value(t.take(i - start)),
            acc <= 0x8000_0000u64,
        decreases v.len() - i,
    {
        let c = v[i];
        if !('0' <= c && c <= '9') {
            proof {
                assert(t[i - start] == c);
            }
            return None;
        }
        let d: u64 = (c as u32 as u64) - ('0' as u32 as u64);
        proof {
            assert(spec_digit(c) == d);
        }
        acc = acc * 10 + d;
        i += 1;
        proof {
            lemma_digits_value_step(t, i - 1 - start as int);
            assert(t.take(i - start).drop_last() =~= t.take(i - 1 - start as int));
            assert(spec_all_digits(t.take(i - start))) by {
                assert(forall|j: int|
                    0 <= j < i - start ==> t.take(i - start as int)[j] == t[j]);
            }
        }
        if acc > 0x8000_0000 {
            proof {
                lemma_i32_digits_overflow(t, i - start as int, neg);
            }
            return None;
        }
    }
    proof {
        assert(t.take(i - start) =~= t);
    }
    if neg {
        if acc > 0x8000_0000 {
            return None;
        }
        if acc == 0x8000_0000 {
            return Some(i32::MIN);
        }
        let m = acc as i64;
        return Some((-m) as i32);
    }
    if acc > 0x7fff_ffff {
        return None;
    }
    Some(acc as i32)
}

proof fn lemma_i32_digits_overflow(t: Seq<char>, i: int, neg: bool)
    requires
        spec_all_digits(t.take(i)),
        0 <= i <= t.len(),
        spec_digits_value(t.take(i)) > 0x8000_0000,
    ensures
        spec_all_digits(t) ==> (if neg {
            -spec_digits_value(t)
        } else {
            spec_digits_value(t)
        }) < i32::MIN || (if neg {
            -spec_digits_value(t)
        } else {
            spec_digits_value(t)
        }) > i32::MAX,
    decreases t.len() - i,
{
    if spec_all_digits(t) {
        if i == t.len() {
            assert(t.take(i) =~= t);
        } else {
            lemma_digits_value_step(t, i);
            assert(spec_all_digits(t.take(i))) by {
                assert(forall|j: int| 0 <= j < i ==> t.take(i)[j] == t[j]);
            }
            lemma_digits_value_nonneg(t.take(i));
            lemma_i32_digits_overflow(t, i + 1, neg);
        }
    }
}

/// The character of one decimal digit.
pub open spec fn spec_digit_char(d: int) -> char {
    if d == 0 {
        '0'
    } else if d == 1 {
        '1'
    } else if d == 2 {
        '2'
    } else if d == 3 {
        '3'
    } else if d == 4 {
        '4'
    } else if d == 5 {
        '5'
    } else if d == 6 {
        '6'
    } else if d == 7 {
        '7'
    } else if d == 8 {
        '8'
    } else {
        '9'
    }
}

/// The decimal rendering of a natural number, most significant digit first.
pub open spec fn spec_dec_nat(n: nat) -> Seq<char>
    decreases n,
{
    if n < 10 {
        seq![spec_digit_char(n as int)]
    } else {
        spec_dec_nat(n / 10) + seq![spec_digit_char((n % 10) as int)]
    }
}

/// The decimal rendering of a signed number: a leading minus sign for a
/// negative value, then the digits of its magnitude.
pub open spec fn spec_dec_int(n: int) -> Seq<char> {
    if n < 0 {
        seq!['-'] + spec_dec_nat((-n) as nat)
    } else {
        spec_dec_nat(n as nat)
    }
}

fn digit_char(d: u32) -> (r: char)
    requires
        d < 10,
    ensures
        r == spec_digit_char(d as int),
{
    if d == 0 {
        '0'
    } else if d == 1 {
        '1'
    } else if d == 2 {
        '2'
    } else if d == 3 {
        '3'
    } else if d == 4 {
        '4'
    } else if d == 5 {
        '5'
    } else if d == 6 {
        '6'
    } else if d == 7 {
        '7'
    } else if d == 8 {
        '8'
    } else {
        '9'
    }
}

fn push_dec_u32(out: &mut Vec<char>, n: u32)
    ensures
        final(out)@ == old(out)@ + spec_dec_nat(n as nat),
    decreases n,
{
    if n < 10 {
        out.push(digit_char(n));
        proof {
            assert(out@ =~= old(out)@ + seq![spec_digit_char(n as int)]);
        }
    } else {
        push_dec_u32(out, n / 10);
        out.push(digit_char(n % 10));
        proof {
            assert(out@ =~= old(out)@ + (spec_dec_nat(n as nat / 10) + seq![
                spec_digit_char((n as nat % 10) as int),
            ]));
        }
    }
}

/// The decimal rendering of a signed 32-bit value, mirroring
/// [`spec_dec_int`].
pub fn i32_dec_chars(n: i32) -> (r: Vec<char>)
    ensures
        r@ == spec_dec_int(n as int),
{
    let mut out: Vec<char> = Vec::new();
    if n < 0 {
        out.push('-');
        let m: u32 = (-(n as i64)) as u32;
        push_dec_u32(&mut out, m);
        proof {
            assert(out@ =~= seq!['-'] + spec_dec_nat((-(n as int)) as nat));
        }
    } else {
        push_dec_u32(&mut out, n as u32);
        proof {
            assert(out@ =~= spec_dec_nat(n as nat));
        }
    }
    out
}

/// Concatenation of two string slices.
pub fn concat_str(a: &str, b: &str) -> (r: String)
    ensures
        r@ == a@ + b@,
{
    let mut r = a.to_owned();
    r.append(b);
    r
}

} // verus!

