//! Verified text utilities over `&str` / `String`, specified against the
//! `Seq<char>` views of the strings involved.
//!
//! Case folding is ASCII case folding: only the letters `A`..`Z` are mapped.
use vstd::prelude::*;

verus! {

/// The Unicode white-space characters, as used by `char::is_whitespace`.
pub open spec fn spec_is_whitespace(c: char) -> bool {
    let u = c as u32;
    u == 0x09 || u == 0x0A || u == 0x0B || u == 0x0C || u == 0x0D || u == 0x20 || u == 0x85
        || u == 0xA0 || u == 0x1680 || (0x2000 <= u && u <= 0x200A) || u == 0x2028 || u == 0x2029
        || u == 0x202F || u == 0x205F || u == 0x3000
}

/// Decides `spec_is_whitespace`.
pub fn is_whitespace_char(c: char) -> (r: bool)
    ensures
        r == spec_is_whitespace(c),
{
    let u = c as u32;
    u == 0x09 || u == 0x0A || u == 0x0B || u == 0x0C || u == 0x0D || u == 0x20 || u == 0x85
        || u == 0xA0 || u == 0x1680 || (0x2000 <= u && u <= 0x200A) || u == 0x2028 || u == 0x2029
        || u == 0x202F || u == 0x205F || u == 0x3000
}

/// ASCII lower-casing of one character: `A`..`Z` map to `a`..`z`, everything
/// else is unchanged.
pub open spec fn spec_lower_char(c: char) -> char {
    if 0x41 <= c as u32 && c as u32 <= 0x5A {
        (c as u32 + 0x20) as char
    } else {
        c
    }
}

/// The character sequence with every character ASCII-lower-cased.
pub open spec fn spec_lower(s: Seq<char>) -> Seq<char> {
    s.map(|_i: int, c: char| spec_lower_char(c))
}

/// Decides `spec_lower_char`.
pub fn lower_char(c: char) -> (r: char)
    ensures
        r == spec_lower_char(c),
{
    let u = c as u32;
    if 0x41 <= u && u <= 0x5A {
        ((u + 0x20) as u8) as char
    } else {
        c
    }
}

/// `p` is a prefix of `s`.
pub open spec fn spec_starts_with(s: Seq<char>, p: Seq<char>) -> bool {
    p.len() <= s.len() && forall|j: int| 0 <= j < p.len() ==> s[j] == p[j]
}

/// `p` is a prefix of `s` up to ASCII case.
pub open spec fn spec_starts_with_ci(s: Seq<char>, p: Seq<char>) -> bool {
    p.len() <= s.len() && forall|j: int| 0 <= j < p.len()
        ==> spec_lower_char(s[j]) == spec_lower_char(p[j])
}

/// Decides whether `p` is a prefix of `s` up to ASCII case.
pub fn starts_with_ci(s: &str, p: &str) -> (r: bool)
    ensures
        r == spec_starts_with_ci(s@, p@),
{
    let n = p.unicode_len();
    let m = s.unicode_len();
    if n > m {
        return false;
    }
    let mut i: usize = 0;
    while i < n
        invariant
            i <= n,
            n == p@.len(),
            n <= m == s@.len(),
            forall|j: int| 0 <= j < i ==> spec_lower_char(s@[j]) == spec_lower_char(p@[j]),
        decreases n - i,
    {
        let cs = s.get_char(i);
        let cp = p.get_char(i);
        if lower_char(cs) != lower_char(cp) {
            return false;
        }
        i += 1;
    }
    true
}

/// Decides whether `p` is a prefix of `s`.
pub fn starts_with(s: &str, p: &str) -> (r: bool)
    ensures
        r == spec_starts_with(s@, p@),
{
    let n = p.unicode_len();
    let m = s.unicode_len();
    if n > m {
        return false;
    }
    let mut i: usize = 0;
    while i < n
        invariant
            i <= n,
            n == p@.len(),
            n <= m == s@.len(),
            forall|j: int| 0 <= j < i ==> s@[j] == p@[j],
        decreases n - i,
    {
        let cs = s.get_char(i);
        let cp = p.get_char(i);
        if cs != cp {
            return false;
        }
        i += 1;
    }
    true
}

/// `needle` occurs as a contiguous run inside `s`.
pub open spec fn spec_contains(s: Seq<char>, needle: Seq<char>) -> bool {
    exists|i: int|
        0 <= i && i + needle.len() <= s.len() && #[trigger] s.subrange(i, i + needle.len() as int)
            == needle
}

/// Decides whether `needle` occurs as a contiguous run inside `s`.
pub fn contains_sub(s: &str, needle: &str) -> (r: bool)
    ensures
        r == spec_contains(s@, needle@),
{
    let n = needle.unicode_len();
    let m = s.unicode_len();
    if n > m {
        return false;
    }
    if n == 0 {
        assert(s@.subrange(0, 0 + needle@.len() as int) =~= needle@);
        return true;
    }
    let mut start: usize = 0;
    while start <= m - n
        invariant
            0 <= start <= m - n + 1,
            1 <= n == needle@.len(),
            n <= m == s@.len(),
            forall|i: int|
                0 <= i < start ==> #[trigger] s@.subrange(i, i + needle@.len() as int) != needle@,
        decreases m - start,
    {
        let mut j: usize = 0;
        let mut matched: bool = true;
        while j < n
            invariant_except_break
                0 <= j <= n,
                n == needle@.len(),
                start + n <= m == s@.len(),
                matched,
                forall|k: int| 0 <= k < j ==> s@[start + k] == needle@[k],
            ensures
                n == needle@.len(),
                start + n <= m == s@.len(),
                matched ==> forall|k: int| 0 <= k < n ==> s@[start + k] == needle@[k],
                !matched ==> s@.subrange(start as int, start + needle@.len() as int) != needle@,
            decreases n - j,
        {
            if s.get_char(start + j) != needle.get_char(j) {
                matched = false;
                proof {
                    assert(s@.subrange(start as int, start + needle@.len() as int)[j as int]
                        == s@[start + j as int]);
                }
                break;
            }
            j += 1;
        }
        if matched {
            assert(s@.subrange(start as int, start + needle@.len() as int) =~= needle@);
            return true;
        }
        start += 1;
    }
    assert forall|i: int| 0 <= i && i + needle@.len() <= s@.len() implies #[trigger] s@.subrange(
        i,
        i + needle@.len() as int,
    ) != needle@ by {
        assert(i < start);
    }
    false
}

/// Decides whether `needle` occurs inside `s`, comparing up to ASCII case.
/// Equivalent to searching the ASCII-lower-cased haystack for the
/// ASCII-lower-cased needle.
pub fn contains_ci(s: &str, needle: &str) -> (r: bool)
    ensures
        r == spec_contains(spec_lower(s@), spec_lower(needle@)),
{
    let n = needle.unicode_len();
    let m = s.unicode_len();
    assert(spec_lower(needle@).len() == n);
    assert(spec_lower(s@).len() == m);
    if n > m {
        return false;
    }
    let ghost ls = spec_lower(s@);
    let ghost ln = spec_lower(needle@);
    if n == 0 {
        assert(ls.subrange(0, 0 + ln.len() as int) =~= ln);
        return true;
    }
    let mut start: usize = 0;
    while start <= m - n
        invariant
            0 <= start <= m - n + 1,
            ls == spec_lower(s@),
            ln == spec_lower(needle@),
            1 <= n == ln.len(),
            n <= m == ls.len(),
            forall|i: int| 0 <= i < start ==> #[trigger] ls.subrange(i, i + ln.len() as int) != ln,
        decreases m - start,
    {
        let mut j: usize = 0;
        let mut matched: bool = true;
        while j < n
            invariant_except_break
                0 <= j <= n,
                ls == spec_lower(s@),
                ln == spec_lower(needle@),
                n == ln.len(),
                start + n <= m == ls.len(),
                matched,
                forall|k: int| 0 <= k < j ==> ls[start + k] == ln[k],
            ensures
                ls == spec_lower(s@),
                ln == spec_lower(needle@),
                n == ln.len(),
                start + n <= m == ls.len(),
                matched ==> forall|k: int| 0 <= k < n ==> ls[start + k] == ln[k],
                !matched ==> ls.subrange(start as int, start + ln.len() as int) != ln,
            decreases n - j,
        {
            if lower_char(s.get_char(start + j)) != lower_char(needle.get_char(j)) {
                matched = false;
                proof {
                    assert(ls[start + j as int] != ln[j as int]);
                    assert(ls.subrange(start as int, start + ln.len() as int)[j as int]
                        == ls[start + j as int]);
                }
                break;
            }
            assert(ls[start + j as int] == ln[j as int]);
            j += 1;
        }
        if matched {
            assert(ls.subrange(start as int, start + ln.len() as int) =~= ln);
            return true;
        }
        start += 1;
    }
    assert forall|i: int| 0 <= i && i + ln.len() <= ls.len() implies #[trigger] ls.subrange(
        i,
        i + ln.len() as int,
    ) != ln by {
        assert(i < start);
    }
    false
}

/// The number of leading white-space characters of `s`.
pub open spec fn spec_ws_prefix_len(s: Seq<char>) -> int
    decreases s.len(),
{
    if s.len() == 0 {
        0
    } else if spec_is_whitespace(s[0]) {
        1 + spec_ws_prefix_len(s.skip(1))
    } else {
        0
    }
}

/// The number of trailing white-space characters of `s`.
pub open spec fn spec_ws_suffix_len(s: Seq<char>) -> int
    decreases s.len(),
{
    if s.len() == 0 {
        0
    } else if spec_is_whitespace(s.last()) {
        1 + spec_ws_suffix_len(s.drop_last())
    } else {
        0
    }
}

/// `s` with leading white space removed.
pub open spec fn spec_trim_start(s: Seq<char>) -> Seq<char> {
    s.skip(spec_ws_prefix_len(s))
}

/// `s` with trailing white space removed.
pub open spec fn spec_trim_end(s: Seq<char>) -> Seq<char> {
    s.take(s.len() - spec_ws_suffix_len(s))
}

/// `s` with leading and trailing white space removed.
pub open spec fn spec_trim(s: Seq<char>) -> Seq<char> {
    spec_trim_end(spec_trim_start(s))
}

proof fn lemma_ws_prefix_len_bounds(s: Seq<char>)
    ensures
        0 <= spec_ws_prefix_len(s) <= s.len(),
        forall|j: int| 0 <= j < spec_ws_prefix_len(s) ==> spec_is_whitespace(s[j]),
        spec_ws_prefix_len(s) < s.len() ==> !spec_is_whitespace(s[spec_ws_prefix_len(s)]),
    decreases s.len(),
{
    if s.len() == 0 {
    } else if spec_is_whitespace(s[0]) {
        lemma_ws_prefix_len_bounds(s.skip(1));
        assert forall|j: int| 0 <= j < spec_ws_prefix_len(s) implies spec_is_whitespace(s[j]) by {
            if j > 0 {
                assert(s.skip(1)[j - 1] == s[j]);
            }
        }
        if spec_ws_prefix_len(s) < s.len() {
            assert(s.skip(1)[spec_ws_prefix_len(s) - 1] == s[spec_ws_prefix_len(s)]);
        }
    }
}

proof fn lemma_ws_suffix_len_bounds(s: Seq<char>)
    ensures
        0 <= spec_ws_suffix_len(s) <= s.len(),
        forall|j: int| s.len() - spec_ws_suffix_len(s) <= j < s.len() ==> spec_is_whitespace(s[j]),
        spec_ws_suffix_len(s) < s.len() ==> !spec_is_whitespace(
            s[s.len() - spec_ws_suffix_len(s) - 1],
        ),
    decreases s.len(),
{
    if s.len() == 0 {
    } else if spec_is_whitespace(s.last()) {
        lemma_ws_suffix_len_bounds(s.drop_last());
        assert forall|j: int| s.len() - spec_ws_suffix_len(s) <= j < s.len()
            implies spec_is_whitespace(s[j]) by {
            if j < s.len() - 1 {
                assert(s.drop_last()[j] == s[j]);
            }
        }
        if spec_ws_suffix_len(s) < s.len() {
            assert(s.drop_last()[s.len() - spec_ws_suffix_len(s) - 1]
                == s[s.len() - spec_ws_suffix_len(s) - 1]);
        }
    }
}

/// A prefix-length characterization: if the first `k` characters are white
/// space and either `k` is the length or character `k` is not white space,
/// then `k` is exactly the white-space prefix length.
proof fn lemma_ws_prefix_len_is(s: Seq<char>, k: int)
    requires
        0 <= k <= s.len(),
        forall|j: int| 0 <= j < k ==> spec_is_whitespace(s[j]),
        k < s.len() ==> !spec_is_whitespace(s[k]),
    ensures
        spec_ws_prefix_len(s) == k,
{
    lemma_ws_prefix_len_bounds(s);
    if spec_ws_prefix_len(s) < k {
        assert(spec_is_whitespace(s[spec_ws_prefix_len(s)]));
    } else if spec_ws_prefix_len(s) > k {
        assert(spec_is_whitespace(s[k]));
    }
}

proof fn lemma_ws_suffix_len_is(s: Seq<char>, k: int)
    requires
        0 <= k <= s.len(),
        forall|j: int| s.len() - k <= j < s.len() ==> spec_is_whitespace(s[j]),
        k < s.len() ==> !spec_is_whitespace(s[s.len() - k - 1]),
    ensures
        spec_ws_suffix_len(s) == k,
{
    lemma_ws_suffix_len_bounds(s);
    if spec_ws_suffix_len(s) < k {
        assert(spec_is_whitespace(s[s.len() - spec_ws_suffix_len(s) - 1]));
    } else if spec_ws_suffix_len(s) > k {
        assert(spec_is_whitespace(s[s.len() - k - 1]));
    }
}

/// `s` with trailing white space removed, as an owned string.
pub fn trim_end(s: &str) -> (r: String)
    ensures
        r@ == spec_trim_end(s@),
{
    let m = s.unicode_len();
    let mut end: usize = m;
    while end > 0
        invariant_except_break
            0 <= end <= m == s@.len(),
            forall|j: int| end <= j < m ==> spec_is_whitespace(s@[j]),
        ensures
            0 <= end <= m == s@.len(),
            forall|j: int| end <= j < m ==> spec_is_whitespace(s@[j]),
            end > 0 ==> !spec_is_whitespace(s@[end - 1]),
        decreases end,
    {
        if !is_whitespace_char(s.get_char(end - 1)) {
            break;
        }
        end -= 1;
    }
    proof {
        lemma_ws_suffix_len_is(s@, m - end);
    }
    s.substring_char(0, end).to_owned()
}

/// `s` with leading white space removed, as an owned string.
pub fn trim_start(s: &str) -> (r: String)
    ensures
        r@ == spec_trim_start(s@),
{
    let m = s.unicode_len();
    let mut start: usize = 0;
    while start < m
        invariant_except_break
            0 <= start <= m == s@.len(),
            forall|j: int| 0 <= j < start ==> spec_is_whitespace(s@[j]),
        ensures
            0 <= start <= m == s@.len(),
            forall|j: int| 0 <= j < start ==> spec_is_whitespace(s@[j]),
            start < m ==> !spec_is_whitespace(s@[start as int]),
        decreases m - start,
    {
        if !is_whitespace_char(s.get_char(start)) {
            break;
        }
        start += 1;
    }
    proof {
        lemma_ws_prefix_len_is(s@, start as int);
    }
    s.substring_char(start, m).to_owned()
}

/// `s` with leading and trailing white space removed, as an owned string.
pub fn trim(s: &str) -> (r: String)
    ensures
        r@ == spec_trim(s@),
{
    let start_trimmed = trim_start(s);
    trim_end(start_trimmed.as_str())
}

/// The index of the first `\n` in `s`, or `s.len()` if there is none.
pub open spec fn spec_first_nl(s: Seq<char>) -> int
    decreases s.len(),
{
    if s.len() == 0 {
        0
    } else if s[0] == '\n' {
        0
    } else {
        1 + spec_first_nl(s.skip(1))
    }
}

proof fn lemma_first_nl_bounds(s: Seq<char>)
    ensures
        0 <= spec_first_nl(s) <= s.len(),
        forall|j: int| 0 <= j < spec_first_nl(s) ==> s[j] != '\n',
        spec_first_nl(s) < s.len() ==> s[spec_first_nl(s)] == '\n',
    decreases s.len(),
{
    if s.len() == 0 {
    } else if s[0] == '\n' {
    } else {
        lemma_first_nl_bounds(s.skip(1));
        assert forall|j: int| 0 <= j < spec_first_nl(s) implies s[j] != '\n' by {
            if j > 0 {
                assert(s.skip(1)[j - 1] == s[j]);
            }
        }
        if spec_first_nl(s) < s.len() {
            assert(s.skip(1)[spec_first_nl(s) - 1] == s[spec_first_nl(s)]);
        }
    }
}

/// If the first `k` characters are not line breaks and either `k` is the
/// length or character `k` is a line break, then `k` is exactly the first
/// line-break index.
proof fn lemma_first_nl_is(s: Seq<char>, k: int)
    requires
        0 <= k <= s.len(),
        forall|j: int| 0 <= j < k ==> s[j] != '\n',
        k < s.len() ==> s[k] == '\n',
    ensures
        spec_first_nl(s) == k,
{
    lemma_first_nl_bounds(s);
    if spec_first_nl(s) < k {
        assert(s[spec_first_nl(s)] != '\n');
    } else if spec_first_nl(s) > k {
        assert(s[k] != '\n');
    }
}

/// A line with one trailing carriage return removed, as done for lines that
/// end in a `\r\n` pair.
pub open spec fn spec_strip_cr(l: Seq<char>) -> Seq<char> {
    if l.len() > 0 && l.last() == '\r' {
        l.drop_last()
    } else {
        l
    }
}

/// The lines of `s`: pieces separated by `\n`, each piece losing one
/// trailing `\r` when the separating `\n` was present (so `\r\n` pairs
/// count as one line break). A final piece without a line break is kept
/// whole, and a trailing line break yields no extra empty line.
pub open spec fn spec_split_lines(s: Seq<char>) -> Seq<Seq<char>>
    decreases s.len(), via spec_split_lines_decreases
{
    if s.len() == 0 {
        Seq::empty()
    } else {
        let n = spec_first_nl(s);
        if n == s.len() {
            seq![s]
        } else {
            seq![spec_strip_cr(s.take(n))] + spec_split_lines(s.skip(n + 1))
        }
    }
}

#[via_fn]
proof fn spec_split_lines_decreases(s: Seq<char>) {
    lemma_first_nl_bounds(s);
}

/// The lines joined back with single `\n` separators.
pub open spec fn spec_join_lines(v: Seq<Seq<char>>) -> Seq<char>
    decreases v.len(),
{
    if v.len() == 0 {
        Seq::empty()
    } else if v.len() == 1 {
        v[0]
    } else {
        v[0] + seq!['\n'] + spec_join_lines(v.skip(1))
    }
}

proof fn lemma_join_lines_push(v: Seq<Seq<char>>, x: Seq<char>)
    ensures
        spec_join_lines(v.push(x)) == if v.len() == 0 {
            x
        } else {
            spec_join_lines(v) + seq!['\n'] + x
        },
    decreases v.len(),
{
    if v.len() == 0 {
        assert(v.push(x) =~= seq![x]);
        assert(spec_join_lines(v.push(x)) == x);
    } else {
        assert(v.push(x).skip(1) =~= v.skip(1).push(x));
        lemma_join_lines_push(v.skip(1), x);
        if v.len() == 1 {
            assert(v.skip(1).len() == 0);
            assert(spec_join_lines(v.push(x)) == v[0] + seq!['\n'] + x);
            assert(spec_join_lines(v) == v[0]);
        } else {
            assert(spec_join_lines(v.push(x)) == v[0] + seq!['\n'] + (spec_join_lines(v.skip(1))
                + seq!['\n'] + x));
            assert(v[0] + seq!['\n'] + (spec_join_lines(v.skip(1)) + seq!['\n'] + x) =~= (v[0]
                + seq!['\n'] + spec_join_lines(v.skip(1))) + seq!['\n'] + x);
        }
    }
}

/// The index of the first occurrence of `c` in `s`, or `s.len()` if there
/// is none.
pub open spec fn spec_first_index(s: Seq<char>, c: char) -> int
    decreases s.len(),
{
    if s.len() == 0 {
        0
    } else if s[0] == c {
        0
    } else {
        1 + spec_first_index(s.skip(1), c)
    }
}

pub proof fn lemma_first_index_bounds(s: Seq<char>, c: char)
    ensures
        0 <= spec_first_index(s, c) <= s.len(),
        forall|j: int| 0 <= j < spec_first_index(s, c) ==> s[j] != c,
        spec_first_index(s, c) < s.len() ==> s[spec_first_index(s, c)] == c,
    decreases s.len(),
{
    if s.len() == 0 {
    } else if s[0] == c {
    } else {
        lemma_first_index_bounds(s.skip(1), c);
        assert forall|j: int| 0 <= j < spec_first_index(s, c) implies s[j] != c by {
            if j > 0 {
                assert(s.skip(1)[j - 1] == s[j]);
            }
        }
        if spec_first_index(s, c) < s.len() {
            assert(s.skip(1)[spec_first_index(s, c) - 1] == s[spec_first_index(s, c)]);
        }
    }
}

proof fn lemma_first_index_is(s: Seq<char>, c: char, k: int)
    requires
        0 <= k <= s.len(),
        forall|j: int| 0 <= j < k ==> s[j] != c,
        k < s.len() ==> s[k] == c,
    ensures
        spec_first_index(s, c) == k,
{
    lemma_first_index_bounds(s, c);
    if spec_first_index(s, c) < k {
        assert(s[spec_first_index(s, c)] != c);
    } else if spec_first_index(s, c) > k {
        assert(s[k] != c);
    }
}

/// Finds the first occurrence of `c`, or the length if there is none.
pub fn first_index_of(s: &str, c: char) -> (r: usize)
    ensures
        r == spec_first_index(s@, c),
{
    let m = s.unicode_len();
    let mut i: usize = 0;
    while i < m
        invariant_except_break
            0 <= i <= m == s@.len(),
            forall|j: int| 0 <= j < i ==> s@[j] != c,
        ensures
            0 <= i <= m == s@.len(),
            forall|j: int| 0 <= j < i ==> s@[j] != c,
            i < m ==> s@[i as int] == c,
        decreases m - i,
    {
        if s.get_char(i) == c {
            break;
        }
        i += 1;
    }
    proof {
        lemma_first_index_is(s@, c, i as int);
    }
    i
}

/// The slash-separated segments of a path: maximal runs of non-separator
/// characters, in order. Repeated and leading or trailing separators yield
/// no empty segments.
pub open spec fn spec_split_slash(s: Seq<char>) -> Seq<Seq<char>>
    decreases s.len(), via spec_split_slash_decreases
{
    if s.len() == 0 {
        Seq::empty()
    } else if s[0] == '/' {
        spec_split_slash(s.skip(1))
    } else {
        let k = spec_first_index(s, '/');
        if k == s.len() {
            seq![s]
        } else {
            seq![s.take(k)] + spec_split_slash(s.skip(k))
        }
    }
}

#[via_fn]
proof fn spec_split_slash_decreases(s: Seq<char>) {
    lemma_first_index_bounds(s, '/');
}

proof fn lemma_split_slash_skip_sep(s: Seq<char>, k: int)
    requires
        0 <= k <= s.len(),
        forall|j: int| 0 <= j < k ==> s[j] == '/',
    ensures
        spec_split_slash(s) == spec_split_slash(s.skip(k)),
    decreases k,
{
    if k > 0 {
        assert(s.skip(1).skip(k - 1) =~= s.skip(k));
        assert forall|j: int| 0 <= j < k - 1 implies s.skip(1)[j] == '/' by {
            assert(s.skip(1)[j] == s[j + 1]);
        }
        lemma_split_slash_skip_sep(s.skip(1), k - 1);
    } else {
        assert(s.skip(0) =~= s);
    }
}

/// Every segment the slash split yields is non-empty and free of the
/// separator.
pub proof fn lemma_split_slash_segments(s: Seq<char>)
    ensures
        forall|i: int| 0 <= i < spec_split_slash(s).len() ==> (#[trigger] spec_split_slash(s)[i]).len()
            > 0 && spec_split_slash(s)[i][0] != '/',
    decreases s.len(),
{
    if s.len() == 0 {
    } else if s[0] == '/' {
        lemma_split_slash_segments(s.skip(1));
        assert(spec_split_slash(s) == spec_split_slash(s.skip(1)));
        assert forall|i: int| 0 <= i < spec_split_slash(s).len() implies (
        #[trigger] spec_split_slash(s)[i]).len() > 0 && spec_split_slash(s)[i][0] != '/' by {
            assert(spec_split_slash(s)[i] == spec_split_slash(s.skip(1))[i]);
        }
    } else {
        lemma_first_index_bounds(s, '/');
        let k = spec_first_index(s, '/');
        assert(k >= 1);
        if k == s.len() {
            assert(spec_split_slash(s) == seq![s]);
            assert(spec_split_slash(s)[0] == s);
        } else {
            lemma_split_slash_segments(s.skip(k));
            assert forall|i: int| 0 <= i < spec_split_slash(s).len() implies (
            #[trigger] spec_split_slash(s)[i]).len() > 0 && spec_split_slash(s)[i][0] != '/' by {
                if i == 0 {
                    assert(spec_split_slash(s)[0] == s.take(k));
                    assert(s.take(k)[0] == s[0]);
                } else {
                    assert(spec_split_slash(s)[i] == spec_split_slash(s.skip(k))[i - 1]);
                }
            }
        }
    }
}

/// Splits a path into its slash-separated segments, as `spec_split_slash`
/// describes.
pub fn split_slash(s: &str) -> (r: Vec<String>)
    ensures
        views_of(r@) == spec_split_slash(s@),
{
    let m = s.unicode_len();
    let mut out: Vec<String> = Vec::new();
    let mut i: usize = 0;
    proof {
        assert(s@.skip(0) =~= s@);
        assert(views_of(out@) + spec_split_slash(s@) =~= spec_split_slash(s@));
    }
    while i < m
        invariant
            0 <= i <= m == s@.len(),
            spec_split_slash(s@) == views_of(out@) + spec_split_slash(s@.skip(i as int)),
        decreases m - i,
    {
        if s.get_char(i) == '/' {
            proof {
                assert(s@.skip(i as int).skip(1) =~= s@.skip(i + 1));
            }
            i += 1;
        } else {
            let start = i;
            let mut j: usize = i;
            while j < m
                invariant_except_break
                    start <= j <= m == s@.len(),
                    forall|k: int| start <= k < j ==> s@[k] != '/',
                ensures
                    start <= j <= m == s@.len(),
                    forall|k: int| start <= k < j ==> s@[k] != '/',
                    j < m ==> s@[j as int] == '/',
                decreases m - j,
            {
                if s.get_char(j) == '/' {
                    break;
                }
                j += 1;
            }
            let word = s.substring_char(start, j).to_owned();
            proof {
                let tail = s@.skip(start as int);
                assert forall|k: int| 0 <= k < j - start implies tail[k] != '/' by {
                    assert(tail[k] == s@[start + k]);
                }
                if j < m {
                    assert(tail[j - start] == s@[j as int]);
                }
                lemma_first_index_is(tail, '/', j - start);
                assert(tail.take(j - start) =~= s@.subrange(start as int, j as int));
                assert(word@ == tail.take(j - start));
                assert(tail.skip(j - start) =~= s@.skip(j as int));
                if j - start == tail.len() {
                    assert(spec_split_slash(tail) == seq![word@]);
                    assert(s@.skip(j as int) =~= Seq::<char>::empty());
                    assert(seq![word@] =~= seq![word@] + spec_split_slash(s@.skip(j as int)));
                } else {
                    assert(spec_split_slash(tail) == seq![word@] + spec_split_slash(
                        s@.skip(j as int),
                    ));
                }
                lemma_views_of_push(out@, word);
                assert(views_of(out@) + (seq![word@] + spec_split_slash(s@.skip(j as int)))
                    =~= views_of(out@.push(word)) + spec_split_slash(s@.skip(j as int)));
            }
            out.push(word);
            i = j;
        }
    }
    proof {
        assert(s@.skip(m as int) =~= Seq::<char>::empty());
        assert(views_of(out@) + spec_split_slash(s@.skip(m as int)) =~= views_of(out@));
    }
    out
}

/// A sequence with a non-white-space head is unchanged by trimming from
/// the start.
pub proof fn lemma_trim_start_no_ws_head(l: Seq<char>)
    requires
        l.len() > 0,
        !spec_is_whitespace(l[0]),
    ensures
        spec_trim_start(l) == l,
{
    lemma_ws_prefix_len_is(l, 0);
    assert(l.skip(0) =~= l);
}

/// The index of the first white-space character of `s`, or `s.len()` if
/// there is none.
pub open spec fn spec_first_ws(s: Seq<char>) -> int
    decreases s.len(),
{
    if s.len() == 0 {
        0
    } else if spec_is_whitespace(s[0]) {
        0
    } else {
        1 + spec_first_ws(s.skip(1))
    }
}

proof fn lemma_first_ws_bounds(s: Seq<char>)
    ensures
        0 <= spec_first_ws(s) <= s.len(),
        forall|j: int| 0 <= j < spec_first_ws(s) ==> !spec_is_whitespace(s[j]),
        spec_first_ws(s) < s.len() ==> spec_is_whitespace(s[spec_first_ws(s)]),
    decreases s.len(),
{
    if s.len() == 0 {
    } else if spec_is_whitespace(s[0]) {
    } else {
        lemma_first_ws_bounds(s.skip(1));
        assert forall|j: int| 0 <= j < spec_first_ws(s) implies !spec_is_whitespace(s[j]) by {
            if j > 0 {
                assert(s.skip(1)[j - 1] == s[j]);
            }
        }
        if spec_first_ws(s) < s.len() {
            assert(s.skip(1)[spec_first_ws(s) - 1] == s[spec_first_ws(s)]);
        }
    }
}

proof fn lemma_first_ws_is(s: Seq<char>, k: int)
    requires
        0 <= k <= s.len(),
        forall|j: int| 0 <= j < k ==> !spec_is_whitespace(s[j]),
        k < s.len() ==> spec_is_whitespace(s[k]),
    ensures
        spec_first_ws(s) == k,
{
    lemma_first_ws_bounds(s);
    if spec_first_ws(s) < k {
        assert(!spec_is_whitespace(s[spec_first_ws(s)]));
    } else if spec_first_ws(s) > k {
        assert(!spec_is_whitespace(s[k]));
    }
}

/// The white-space-separated words of `s`: maximal runs of
/// non-white-space characters, in order.
pub open spec fn spec_split_whitespace(s: Seq<char>) -> Seq<Seq<char>>
    decreases s.len(), via spec_split_whitespace_decreases
{
    if s.len() == 0 {
        Seq::empty()
    } else if spec_is_whitespace(s[0]) {
        spec_split_whitespace(s.skip(1))
    } else {
        let k = spec_first_ws(s);
        if k == s.len() {
            seq![s]
        } else {
            seq![s.take(k)] + spec_split_whitespace(s.skip(k))
        }
    }
}

#[via_fn]
proof fn spec_split_whitespace_decreases(s: Seq<char>) {
    lemma_first_ws_bounds(s);
}

proof fn lemma_split_whitespace_skip_ws(s: Seq<char>, k: int)
    requires
        0 <= k <= s.len(),
        forall|j: int| 0 <= j < k ==> spec_is_whitespace(s[j]),
    ensures
        spec_split_whitespace(s) == spec_split_whitespace(s.skip(k)),
    decreases k,
{
    if k > 0 {
        assert(s.skip(1).skip(k - 1) =~= s.skip(k));
        assert forall|j: int| 0 <= j < k - 1 implies spec_is_whitespace(s.skip(1)[j]) by {
            assert(s.skip(1)[j] == s[j + 1]);
        }
        lemma_split_whitespace_skip_ws(s.skip(1), k - 1);
    } else {
        assert(s.skip(0) =~= s);
    }
}

/// Splits `s` into its white-space-separated words, as
/// `spec_split_whitespace` describes.
pub fn split_whitespace(s: &str) -> (r: Vec<String>)
    ensures
        views_of(r@) == spec_split_whitespace(s@),
{
    let m = s.unicode_len();
    let mut out: Vec<String> = Vec::new();
    let mut i: usize = 0;
    proof {
        assert(s@.skip(0) =~= s@);
        assert(views_of(out@) + spec_split_whitespace(s@) =~= spec_split_whitespace(s@));
    }
    while i < m
        invariant
            0 <= i <= m == s@.len(),
            spec_split_whitespace(s@) == views_of(out@) + spec_split_whitespace(
                s@.skip(i as int),
            ),
        decreases m - i,
    {
        if is_whitespace_char(s.get_char(i)) {
            proof {
                assert(s@.skip(i as int).skip(1) =~= s@.skip(i + 1));
            }
            i += 1;
        } else {
            let start = i;
            let mut j: usize = i;
            while j < m
                invariant_except_break
                    start <= j <= m == s@.len(),
                    forall|k: int| start <= k < j ==> !spec_is_whitespace(s@[k]),
                ensures
                    start <= j <= m == s@.len(),
                    forall|k: int| start <= k < j ==> !spec_is_whitespace(s@[k]),
                    j < m ==> spec_is_whitespace(s@[j as int]),
                decreases m - j,
            {
                if is_whitespace_char(s.get_char(j)) {
                    break;
                }
                j += 1;
            }
            let word = s.substring_char(start, j).to_owned();
            proof {
                let tail = s@.skip(start as int);
                assert forall|k: int| 0 <= k < j - start implies !spec_is_whitespace(
                    tail[k],
                ) by {
                    assert(tail[k] == s@[start + k]);
                }
                if j < m {
                    assert(tail[j - start] == s@[j as int]);
                }
                lemma_first_ws_is(tail, j - start);
                assert(tail.take(j - start) =~= s@.subrange(start as int, j as int));
                assert(word@ == tail.take(j - start));
                assert(tail.skip(j - start) =~= s@.skip(j as int));
                if j - start == tail.len() {
                    assert(spec_split_whitespace(tail) == seq![word@]);
                    assert(s@.skip(j as int) =~= Seq::<char>::empty());
                    assert(seq![word@] =~= seq![word@] + spec_split_whitespace(
                        s@.skip(j as int),
                    ));
                } else {
                    assert(spec_split_whitespace(tail) == seq![word@]
                        + spec_split_whitespace(s@.skip(j as int)));
                }
                lemma_views_of_push(out@, word);
                assert(views_of(out@) + (seq![word@] + spec_split_whitespace(s@.skip(j as int)))
                    =~= views_of(out@.push(word)) + spec_split_whitespace(s@.skip(j as int)));
            }
            out.push(word);
            i = j;
        }
    }
    proof {
        assert(s@.skip(m as int) =~= Seq::<char>::empty());
        assert(views_of(out@) + spec_split_whitespace(s@.skip(m as int)) =~= views_of(out@));
    }
    out
}

/// A needle inside `a` is inside `a + b`.
pub proof fn lemma_contains_concat_left(a: Seq<char>, b: Seq<char>, needle: Seq<char>)
    requires
        spec_contains(a, needle),
    ensures
        spec_contains(a + b, needle),
{
    let i = choose|i: int|
        0 <= i && i + needle.len() <= a.len() && #[trigger] a.subrange(i, i + needle.len() as int)
            == needle;
    assert((a + b).subrange(i, i + needle.len() as int) =~= a.subrange(
        i,
        i + needle.len() as int,
    ));
}

/// A needle inside `b` is inside `a + b`.
pub proof fn lemma_contains_concat_right(a: Seq<char>, b: Seq<char>, needle: Seq<char>)
    requires
        spec_contains(b, needle),
    ensures
        spec_contains(a + b, needle),
{
    let i = choose|i: int|
        0 <= i && i + needle.len() <= b.len() && #[trigger] b.subrange(i, i + needle.len() as int)
            == needle;
    assert((a + b).subrange(a.len() + i, a.len() + i + needle.len() as int) =~= b.subrange(
        i,
        i + needle.len() as int,
    ));
}

/// A needle inside some line is inside the joined lines.
pub proof fn lemma_contains_join_lines(v: Seq<Seq<char>>, i: int, needle: Seq<char>)
    requires
        0 <= i < v.len(),
        spec_contains(v[i], needle),
    ensures
        spec_contains(spec_join_lines(v), needle),
    decreases v.len(),
{
    if v.len() == 1 {
    } else if i == 0 {
        lemma_contains_concat_left(v[0], seq!['\n'] + spec_join_lines(v.skip(1)), needle);
        assert(v[0] + seq!['\n'] + spec_join_lines(v.skip(1)) =~= v[0] + (seq!['\n']
            + spec_join_lines(v.skip(1))));
    } else {
        lemma_contains_join_lines(v.skip(1), i - 1, needle);
        lemma_contains_concat_right(v[0] + seq!['\n'], spec_join_lines(v.skip(1)), needle);
        assert(v[0] + seq!['\n'] + spec_join_lines(v.skip(1)) =~= (v[0] + seq!['\n'])
            + spec_join_lines(v.skip(1)));
    }
}

/// Pushing onto a sequence inserts into its set of values.
pub proof fn lemma_to_set_push(v: Seq<Seq<char>>, x: Seq<char>)
    ensures
        v.push(x).to_set() == v.to_set().insert(x),
{
    assert forall|y: Seq<char>| v.push(x).to_set().contains(y) implies v.to_set().insert(
        x,
    ).contains(y) by {
        let i = choose|i: int| 0 <= i < v.push(x).len() && v.push(x)[i] == y;
        if i < v.len() {
            assert(v[i] == y);
        }
    }
    assert forall|y: Seq<char>| v.to_set().insert(x).contains(y) implies v.push(
        x,
    ).to_set().contains(y) by {
        if y == x {
            assert(v.push(x)[v.len() as int] == y);
        } else {
            let i = choose|i: int| 0 <= i < v.len() && v[i] == y;
            assert(v.push(x)[i] == y);
        }
    }
    assert(v.push(x).to_set() =~= v.to_set().insert(x));
}

/// Law: joining lines and splitting again yields the same lines, for any
/// lines that hold no line break, end in no carriage return, and whose last
/// line is non-empty. These are exactly the line sequences the joined
/// rendering represents faithfully.
pub proof fn lemma_split_join_roundtrip(v: Seq<Seq<char>>)
    requires
        forall|i: int, j: int|
            0 <= i < v.len() && 0 <= j < v[i].len() ==> #[trigger] v[i][j] != '\n',
        forall|i: int| 0 <= i < v.len() ==> !((#[trigger] v[i]).len() > 0 && v[i].last() == '\r'),
        v.len() > 0 ==> v.last().len() > 0,
    ensures
        spec_split_lines(spec_join_lines(v)) == v,
    decreases v.len(),
{
    if v.len() == 0 {
    } else if v.len() == 1 {
        let l = v[0];
        lemma_first_nl_is(l, l.len() as int);
        assert(spec_split_lines(spec_join_lines(v)) =~= v);
    } else {
        let l = v[0];
        let rest = spec_join_lines(v.skip(1));
        let joined = spec_join_lines(v);
        assert(joined == l + seq!['\n'] + rest);
        assert forall|j: int| 0 <= j < l.len() implies joined[j] != '\n' by {
            assert(joined[j] == l[j]);
        }
        assert(joined[l.len() as int] == '\n');
        lemma_first_nl_is(joined, l.len() as int);
        assert(joined.take(l.len() as int) =~= l);
        assert(spec_strip_cr(l) == l);
        assert(joined.skip(l.len() as int + 1) =~= rest);
        assert forall|i: int, j: int|
            0 <= i < v.skip(1).len() && 0 <= j < v.skip(1)[i].len() implies #[trigger] v.skip(
            1,
        )[i][j] != '\n' by {
            assert(v.skip(1)[i] == v[i + 1]);
        }
        assert forall|i: int| 0 <= i < v.skip(1).len() implies !((#[trigger] v.skip(1)[i]).len()
            > 0 && v.skip(1)[i].last() == '\r') by {
            assert(v.skip(1)[i] == v[i + 1]);
        }
        assert(v.skip(1).last() == v.last());
        lemma_split_join_roundtrip(v.skip(1));
        assert(spec_split_lines(joined) == seq![l] + spec_split_lines(rest));
        assert(seq![l] + v.skip(1) =~= v);
    }
}

/// The views of a vector of strings.
pub open spec fn views_of(v: Seq<String>) -> Seq<Seq<char>> {
    v.map_values(|l: String| l@)
}

/// Pushing a string onto a vector pushes its view onto the views.
pub proof fn lemma_views_of_push(v: Seq<String>, x: String)
    ensures
        views_of(v.push(x)) == views_of(v).push(x@),
{
    assert(views_of(v.push(x)) =~= views_of(v).push(x@));
}

/// Splits `s` into its lines, as `spec_split_lines` describes.
pub fn split_lines(s: &str) -> (r: Vec<String>)
    ensures
        views_of(r@) == spec_split_lines(s@),
{
    let m = s.unicode_len();
    let mut out: Vec<String> = Vec::new();
    let mut start: usize = 0;
    let mut i: usize = 0;
    proof {
        assert(s@.skip(0) =~= s@);
        assert(views_of(out@) + spec_split_lines(s@) =~= spec_split_lines(s@));
    }
    while i < m
        invariant
            0 <= start <= i <= m == s@.len(),
            forall|j: int| start <= j < i ==> s@[j] != '\n',
            spec_split_lines(s@) == views_of(out@) + spec_split_lines(s@.skip(start as int)),
        decreases m - i,
    {
        let c = s.get_char(i);
        if c == '\n' {
            let line_end = if i > start && s.get_char(i - 1) == '\r' {
                i - 1
            } else {
                i
            };
            let line = s.substring_char(start, line_end).to_owned();
            proof {
                let tail = s@.skip(start as int);
                lemma_first_nl_is(tail, i - start);
                assert(tail.take(i - start) =~= s@.subrange(start as int, i as int));
                assert(spec_strip_cr(s@.subrange(start as int, i as int)) =~= line@);
                assert(tail.skip(i - start + 1) =~= s@.skip(i + 1));
                assert(spec_split_lines(tail) == seq![line@] + spec_split_lines(s@.skip(i + 1)));
                assert(views_of(out@.push(line)) =~= views_of(out@) + seq![line@]);
                assert(views_of(out@) + (seq![line@] + spec_split_lines(s@.skip(i + 1)))
                    =~= (views_of(out@) + seq![line@]) + spec_split_lines(s@.skip(i + 1)));
            }
            out.push(line);
            start = i + 1;
        }
        i += 1;
    }
    if start < m {
        let line = s.substring_char(start, m).to_owned();
        proof {
            let tail = s@.skip(start as int);
            lemma_first_nl_is(tail, m - start);
            assert(tail =~= s@.subrange(start as int, m as int));
            assert(line@ =~= tail);
            assert(spec_split_lines(tail) == seq![line@]);
            assert(views_of(out@.push(line)) =~= views_of(out@) + seq![line@]);
        }
        out.push(line);
        proof {
            assert(views_of(out@) =~= spec_split_lines(s@));
        }
    } else {
        proof {
            assert(s@.skip(start as int) =~= Seq::<char>::empty());
            assert(views_of(out@) + spec_split_lines(s@.skip(start as int)) =~= views_of(out@));
        }
    }
    out
}

/// Joins lines with single `\n` separators, as `spec_join_lines` describes.
pub fn join_lines(v: &Vec<String>) -> (r: String)
    ensures
        r@ == spec_join_lines(views_of(v@)),
{
    let mut out = String::new();
    let mut i: usize = 0;
    while i < v.len()
        invariant
            0 <= i <= v@.len(),
            out@ == spec_join_lines(views_of(v@).take(i as int)),
        decreases v@.len() - i,
    {
        if i > 0 {
            out.append("\n");
        }
        out.append(v[i].as_str());
        proof {
            reveal_strlit("\n");
            assert("\n"@ =~= seq!['\n']);
            let prefix = views_of(v@).take(i as int);
            lemma_join_lines_push(prefix, v@[i as int]@);
            assert(views_of(v@).take(i + 1) =~= prefix.push(v@[i as int]@));
            if i == 0 {
                assert(out@ =~= v@[i as int]@);
            } else {
                assert(out@ =~= spec_join_lines(prefix) + seq!['\n'] + v@[i as int]@);
            }
        }
        i += 1;
    }
    proof {
        assert(views_of(v@).take(v@.len() as int) =~= views_of(v@));
    }
    out
}

} // verus!
