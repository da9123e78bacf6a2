//! Character and line utilities shared by the lexer, the validator and the
//! semantic passes: whitespace trimming, ASCII case folding, substring
//! search, line splitting and decimal formatting, each specified over
//! `Seq<char>`.

use vstd::prelude::*;

verus! {

// --- Character classes ---

/// The Unicode `White_Space` code points, as `str::trim` sees them.
pub open spec fn spec_is_ws(c: char) -> bool {
    ('\u{09}' <= c && c <= '\u{0D}') || c == ' ' || c == '\u{85}' || c == '\u{A0}'
        || c == '\u{1680}' || ('\u{2000}' <= c && c <= '\u{200A}') || c == '\u{2028}'
        || c == '\u{2029}' || c == '\u{202F}' || c == '\u{205F}' || c == '\u{3000}'
}

pub fn is_ws(c: char) -> (r: bool)
    ensures
        r == spec_is_ws(c),
{
    ('\u{09}' <= c && c <= '\u{0D}') || c == ' ' || c == '\u{85}' || c == '\u{A0}'
        || c == '\u{1680}' || ('\u{2000}' <= c && c <= '\u{200A}') || c == '\u{2028}'
        || c == '\u{2029}' || c == '\u{202F}' || c == '\u{205F}' || c == '\u{3000}'
}

pub open spec fn spec_is_digit(c: char) -> bool {
    '0' <= c && c <= '9'
}

pub fn is_digit(c: char) -> (r: bool)
    ensures
        r == spec_is_digit(c),
{
    '0' <= c && c <= '9'
}

pub open spec fn spec_is_upper(c: char) -> bool {
    'A' <= c && c <= 'Z'
}

pub fn is_upper(c: char) -> (r: bool)
    ensures
        r == spec_is_upper(c),
{
    'A' <= c && c <= 'Z'
}

pub open spec fn spec_is_lower(c: char) -> bool {
    'a' <= c && c <= 'z'
}

/// ASCII alphanumeric: a letter of either case or a decimal digit.
pub open spec fn spec_is_alnum(c: char) -> bool {
    spec_is_upper(c) || spec_is_lower(c) || spec_is_digit(c)
}

pub fn is_alnum(c: char) -> (r: bool)
    ensures
        r == spec_is_alnum(c),
{
    is_upper(c) || ('a' <= c && c <= 'z') || is_digit(c)
}

/// ASCII case folding of one character; every other character is unchanged.
pub open spec fn spec_lower_char(c: char) -> char {
    match c {
        'A' => 'a',
        'B' => 'b',
        'C' => 'c',
        'D' => 'd',
        'E' => 'e',
        'F' => 'f',
        'G' => 'g',
        'H' => 'h',
        'I' => 'i',
        'J' => 'j',
        'K' => 'k',
        'L' => 'l',
        'M' => 'm',
        'N' => 'n',
        'O' => 'o',
        'P' => 'p',
        'Q' => 'q',
        'R' => 'r',
        'S' => 's',
        'T' => 't',
        'U' => 'u',
        'V' => 'v',
        'W' => 'w',
        'X' => 'x',
        'Y' => 'y',
        'Z' => 'z',
        _ => c,
    }
}

pub fn lower_char(c: char) -> (r: char)
    ensures
        r == spec_lower_char(c),
{
    match c {
        'A' => 'a',
        'B' => 'b',
        'C' => 'c',
        'D' => 'd',
        'E' => 'e',
        'F' => 'f',
        'G' => 'g',
        'H' => 'h',
        'I' => 'i',
        'J' => 'j',
        'K' => 'k',
        'L' => 'l',
        'M' => 'm',
        'N' => 'n',
        'O' => 'o',
        'P' => 'p',
        'Q' => 'q',
        'R' => 'r',
        'S' => 's',
        'T' => 't',
        'U' => 'u',
        'V' => 'v',
        'W' => 'w',
        'X' => 'x',
        'Y' => 'y',
        'Z' => 'z',
        _ => c,
    }
}

/// ASCII case folding of a whole string.
pub open spec fn spec_lower(s: Seq<char>) -> Seq<char> {
    s.map_values(|c: char| spec_lower_char(c))
}

pub fn lower_chars(v: &Vec<char>) -> (r: Vec<char>)
    ensures
        r@ == spec_lower(v@),
{
    let mut r: Vec<char> = Vec::new();
    let mut i: usize = 0;
    while i < v.len()
        invariant
            i <= v.len(),
            r@ == spec_lower(v@.take(i as int)),
        decreases v.len() - i,
    {
        r.push(lower_char(v[i]));
        i = i + 1;
        assert(v@.take(i as int) =~= v@.take(i - 1).push(v@[i - 1]));
        assert(r@ =~= spec_lower(v@.take(i as int)));
    }
    assert(v@.take(v@.len() as int) =~= v@);
    r
}

// --- Conversions between `str`/`String` and `Vec<char>` ---

/// The characters of a string slice, in order.
pub fn chars_of(s: &str) -> (v: Vec<char>)
    ensures
        v@ == s@,
{
    let n = s.unicode_len();
    let mut v: Vec<char> = Vec::new();
    let mut i: usize = 0;
    while i < n
        invariant
            i <= n,
            n == s@.len(),
            v@ == s@.take(i as int),
        decreases n - i,
    {
        v.push(s.get_char(i));
        i = i + 1;
        assert(v@ =~= s@.take(i as int));
    }
    assert(s@.take(n as int) =~= s@);
    v
}

/// Relies on `String`'s `FromIterator<char>` impl: collecting characters
/// yields the string with exactly those characters in order.
#[verifier::external_body]
pub fn chars_to_string(v: &Vec<char>) -> (s: String)
    ensures
        s@ == v@,
{
    v.iter().collect()
}

// --- Trimming ---

pub open spec fn spec_trim_start(s: Seq<char>) -> Seq<char>
    decreases s.len(),
{
    if s.len() > 0 && spec_is_ws(s[0]) {
        spec_trim_start(s.drop_first())
    } else {
        s
    }
}

pub open spec fn spec_trim_end(s: Seq<char>) -> Seq<char>
    decreases s.len(),
{
    if s.len() > 0 && spec_is_ws(s.last()) {
        spec_trim_end(s.drop_last())
    } else {
        s
    }
}

/// The string with leading and trailing whitespace removed.
pub open spec fn spec_trim(s: Seq<char>) -> Seq<char> {
    spec_trim_end(spec_trim_start(s))
}

proof fn lemma_trim_start_skip(s: Seq<char>, k: int)
    requires
        0 <= k <= s.len(),
        forall|j: int| 0 <= j < k ==> spec_is_ws(s[j]),
        k < s.len() ==> !spec_is_ws(s[k]),
    ensures
        spec_trim_start(s) == s.skip(k),
    decreases k,
{
    if k == 0 {
        assert(s.skip(0) =~= s);
    } else {
        let t = s.drop_first();
        assert(spec_is_ws(s[0]));
        assert(forall|j: int| 0 <= j < k - 1 ==> spec_is_ws(t[j]));
        lemma_trim_start_skip(t, k - 1);
        assert(t.skip(k - 1) =~= s.skip(k));
    }
}

proof fn lemma_trim_end_take(s: Seq<char>, k: int)
    requires
        0 <= k <= s.len(),
        forall|j: int| k <= j < s.len() ==> spec_is_ws(s[j]),
        k > 0 ==> !spec_is_ws(s[k - 1]),
    ensures
        spec_trim_end(s) == s.take(k),
    decreases s.len() - k,
{
    if k == s.len() {
        assert(s.take(k) =~= s);
        if s.len() > 0 {
            assert(!spec_is_ws(s.last()));
        }
    } else {
        let t = s.drop_last();
        assert(spec_is_ws(s.last()));
        lemma_trim_end_take(t, k);
        assert(t.take(k) =~= s.take(k));
    }
}

/// Both ends trimmed, as a fresh character vector.
pub fn trim_chars(v: &Vec<char>) -> (r: Vec<char>)
    ensures
        r@ == spec_trim(v@),
{
    let n = v.len();
    let mut a: usize = 0;
    while a < n && is_ws(v[a])
        invariant
            a <= n,
            n == v@.len(),
            forall|j: int| 0 <= j < a ==> spec_is_ws(v@[j]),
        decreases n - a,
    {
        a = a + 1;
    }
    proof {
        lemma_trim_start_skip(v@, a as int);
    }
    let mut b: usize = n;
    while b > a && is_ws(v[b - 1])
        invariant
            a <= b <= n,
            n == v@.len(),
            forall|j: int| b <= j < n ==> spec_is_ws(v@[j]),
        decreases b,
    {
        b = b - 1;
    }
    proof {
        let st = v@.skip(a as int);
        assert(forall|j: int| b - a <= j < st.len() ==> spec_is_ws(#[trigger] st[j]));
        if b > a {
            assert(!spec_is_ws(st[b - a - 1]));
        } else {
            if a < n && b == a {
                assert(!spec_is_ws(v@[a as int]));
                assert(spec_is_ws(st[0]) == false);
                assert(b - a == 0);
            }
        }
        lemma_trim_end_take(st, b - a);
    }
    let mut r: Vec<char> = Vec::new();
    let mut i: usize = a;
    while i < b
        invariant
            a <= i <= b <= n,
            n == v@.len(),
            r@ == v@.subrange(a as int, i as int),
        decreases b - i,
    {
        r.push(v[i]);
        i = i + 1;
        assert(r@ =~= v@.subrange(a as int, i as int));
    }
    proof {
        assert(v@.skip(a as int).take(b - a) =~= v@.subrange(a as int, b as int));
    }
    r
}

// --- Equality and search ---

/// Whether the characters of `v` spell exactly the string `s`.
pub fn eq_str(v: &Vec<char>, s: &str) -> (r: bool)
    ensures
        r == (v@ == s@),
{
    let n = s.unicode_len();
    if v.len() != n {
        assert(v@ != s@);
        return false;
    }
    let mut i: usize = 0;
    while i < n
        invariant
            i <= n,
            n == s@.len(),
            n == v@.len(),
            forall|j: int| 0 <= j < i ==> v@[j] == s@[j],
        decreases n - i,
    {
        if v[i] != s.get_char(i) {
            return false;
        }
        i = i + 1;
    }
    proof {
        assert(v@ =~= s@);
    }
    true
}

/// Whether `v` starts with the string `p`.
pub open spec fn spec_starts_with(s: Seq<char>, p: Seq<char>) -> bool {
    p.len() <= s.len() && s.take(p.len() as int) == p
}

pub fn starts_with_str(v: &Vec<char>, p: &str) -> (r: bool)
    ensures
        r == spec_starts_with(v@, p@),
{
    let n = p.unicode_len();
    if v.len() < n {
        return false;
    }
    let mut i: usize = 0;
    while i < n
        invariant
            i <= n,
            n == p@.len(),
            n <= v@.len(),
            forall|j: int| 0 <= j < i ==> v@[j] == p@[j],
        decreases n - i,
    {
        if v[i] != p.get_char(i) {
            assert(v@.take(n as int)[i as int] != p@[i as int]);
            return false;
        }
        i = i + 1;
    }
    proof {
        assert(v@.take(n as int) =~= p@);
    }
    true
}

/// The position of the first occurrence of `c` in `s`, or `s.len()` if none.
pub open spec fn spec_find(s: Seq<char>, c: char) -> int
    decreases s.len(),
{
    if s.len() == 0 {
        0
    } else if s[0] == c {
        0
    } else {
        1 + spec_find(s.drop_first(), c)
    }
}

pub proof fn lemma_find(s: Seq<char>, c: char)
    ensures
        0 <= spec_find(s, c) <= s.len(),
        spec_find(s, c) < s.len() ==> s[spec_find(s, c)] == c,
        forall|j: int| 0 <= j < spec_find(s, c) ==> s[j] != c,
    decreases s.len(),
{
    if s.len() > 0 && s[0] != c {
        let t = s.drop_first();
        lemma_find(t, c);
        assert forall|j: int| 0 <= j < spec_find(s, c) implies s[j] != c by {
            if j > 0 {
                assert(s[j] == t[j - 1]);
            }
        }
    }
}

/// First index of `c` in `v` at or after `from`, or `v.len()` if absent.
pub fn find_char_from(v: &Vec<char>, from: usize, c: char) -> (r: usize)
    requires
        from <= v@.len(),
    ensures
        from <= r <= v@.len(),
        r < v@.len() ==> v@[r as int] == c,
        forall|j: int| from <= j < r ==> v@[j] != c,
        r - from == spec_find(v@.skip(from as int), c),
{
    let n = v.len();
    let mut i: usize = from;
    while i < n && v[i] != c
        invariant
            from <= i <= n,
            n == v@.len(),
            forall|j: int| from <= j < i ==> v@[j] != c,
        decreases n - i,
    {
        i = i + 1;
    }
    proof {
        lemma_find_unique(v@.skip(from as int), c, i - from);
    }
    i
}

proof fn lemma_find_unique(s: Seq<char>, c: char, k: int)
    requires
        0 <= k <= s.len(),
        k < s.len() ==> s[k] == c,
        forall|j: int| 0 <= j < k ==> s[j] != c,
    ensures
        spec_find(s, c) == k,
    decreases k,
{
    if s.len() == 0 {
    } else if k == 0 {
    } else {
        let t = s.drop_first();
        assert(forall|j: int| 0 <= j < k - 1 ==> t[j] != c);
        lemma_find_unique(t, c, k - 1);
    }
}

/// Whether `needle` occurs at position `i` of `hay`.
pub open spec fn contains_at(hay: Seq<char>, needle: Seq<char>, i: int) -> bool {
    0 <= i && i + needle.len() <= hay.len() && hay.subrange(i, i + needle.len()) == needle
}

/// Whether `needle` occurs anywhere inside `hay`.
pub open spec fn spec_contains(hay: Seq<char>, needle: Seq<char>) -> bool {
    exists|i: int| contains_at(hay, needle, i)
}

/// Substring search: whether the characters of `p` occur contiguously in `v`.
pub fn contains_str(v: &Vec<char>, p: &str) -> (r: bool)
    ensures
        r == spec_contains(v@, p@),
{
    let m = p.unicode_len();
    let n = v.len();
    if m > n {
        assert(forall|i: int| !contains_at(v@, p@, i));
        return false;
    }
    let last = n - m;
    let mut i: usize = 0;
    loop
        invariant
            0 <= i <= last + 1,
            m == p@.len(),
            n == v@.len(),
            m <= n,
            last == n - m,
            forall|k: int| 0 <= k < i ==> !contains_at(v@, p@, k),
        decreases last + 1 - i,
    {
        if i > last {
            proof {
                assert(forall|k: int| contains_at(v@, p@, k) ==> 0 <= k <= last);
            }
            return false;
        }
        let mut j: usize = 0;
        while j < m && v[i + j] == p.get_char(j)
            invariant
                0 <= j <= m,
                i <= last,
                m == p@.len(),
                n == v@.len(),
                last == n - m,
                forall|t: int| 0 <= t < j ==> v@[i + t] == p@[t],
            decreases m - j,
        {
            j = j + 1;
        }
        if j == m {
            proof {
                assert(v@.subrange(i as int, i + m) =~= p@);
                assert(contains_at(v@, p@, i as int));
            }
            return true;
        }
        proof {
            assert(v@[i + j as int] != p@[j as int]);
            if contains_at(v@, p@, i as int) {
                assert(v@.subrange(i as int, i + m)[j as int] == p@[j as int]);
                assert(false);
            }
        }
        i = i + 1;
    }
}

/// Substring search with a character-vector needle.
pub fn contains_chars(v: &Vec<char>, p: &Vec<char>) -> (r: bool)
    ensures
        r == spec_contains(v@, p@),
{
    let m = p.len();
    let n = v.len();
    if m > n {
        assert(forall|i: int| !contains_at(v@, p@, i));
        return false;
    }
    let last = n - m;
    let mut i: usize = 0;
    loop
        invariant
            0 <= i <= last + 1,
            m == p@.len(),
            n == v@.len(),
            m <= n,
            last == n - m,
            forall|k: int| 0 <= k < i ==> !contains_at(v@, p@, k),
        decreases last + 1 - i,
    {
        if i > last {
            proof {
                assert(forall|k: int| contains_at(v@, p@, k) ==> 0 <= k <= last);
            }
            return false;
        }
        let mut j: usize = 0;
        while j < m && v[i + j] == p[j]
            invariant
                0 <= j <= m,
                i <= last,
                m == p@.len(),
                n == v@.len(),
                last == n - m,
                forall|t: int| 0 <= t < j ==> v@[i + t] == p@[t],
            decreases m - j,
        {
            j = j + 1;
        }
        if j == m {
            proof {
                assert(v@.subrange(i as int, i + m) =~= p@);
                assert(contains_at(v@, p@, i as int));
            }
            return true;
        }
        proof {
            assert(v@[i + j as int] != p@[j as int]);
            if contains_at(v@, p@, i as int) {
                assert(v@.subrange(i as int, i + m)[j as int] == p@[j as int]);
                assert(false);
            }
        }
        i = i + 1;
    }
}

/// A string contains its middle part.
pub proof fn lemma_contains_mid(a: Seq<char>, b: Seq<char>, c: Seq<char>)
    ensures
        spec_contains(a + b + c, b),
{
    let s = a + b + c;
    assert(s.subrange(a.len() as int, a.len() + b.len() as int) =~= b);
    assert(contains_at(s, b, a.len() as int));
}

// --- Splitting into lines ---

/// A line with one trailing carriage return removed, as `str::lines` does
/// before a line feed.
pub open spec fn strip_cr(s: Seq<char>) -> Seq<char> {
    if s.len() > 0 && s.last() == '\r' {
        s.drop_last()
    } else {
        s
    }
}

/// The lines of `s`, split at `'\n'`, each stripped of one `'\r'` before the
/// split point; a final line terminator produces no empty last line.
pub open spec fn spec_lines(s: Seq<char>) -> Seq<Seq<char>>
    decreases s.len(),
{
    if s.len() == 0 {
        Seq::empty()
    } else {
        let i = spec_find(s, '\n');
        if 0 <= i && i < s.len() {
            seq![strip_cr(s.take(i))] + spec_lines(s.skip(i + 1))
        } else {
            seq![s]
        }
    }
}

/// Split a string into its lines.
pub fn split_lines(s: &str) -> (r: Vec<Vec<char>>)
    ensures
        r.deep_view() == spec_lines(s@),
{
    let v = chars_of(s);
    let n = v.len();
    let mut out: Vec<Vec<char>> = Vec::new();
    let mut pos: usize = 0;
    proof {
        assert(s@.skip(0) =~= s@);
        assert(out.deep_view() + spec_lines(s@) =~= spec_lines(s@));
    }
    while pos < n
        invariant
            pos <= n,
            n == v@.len(),
            v@ == s@,
            spec_lines(s@) == out.deep_view() + spec_lines(s@.skip(pos as int)),
        decreases n - pos,
    {
        let j = find_char_from(&v, pos, '\n');
        let ghost rest = s@.skip(pos as int);
        proof {
            lemma_find(rest, '\n');
        }
        let end = if j < n && j > pos && v[j - 1] == '\r' {
            j - 1
        } else {
            j
        };
        let mut line: Vec<char> = Vec::new();
        let mut i: usize = pos;
        while i < end
            invariant
                pos <= i <= end <= n,
                n == v@.len(),
                line@ == v@.subrange(pos as int, i as int),
            decreases end - i,
        {
            line.push(v[i]);
            i = i + 1;
            assert(line@ =~= v@.subrange(pos as int, i as int));
        }
        let ghost dv = out.deep_view();
        let ghost lv = line@;
        proof {
            assert(lv =~= s@.subrange(pos as int, end as int));
            if j < n {
                // spec_lines takes its recursive case at this newline
                let fl = rest.take(j - pos);
                assert(fl =~= s@.subrange(pos as int, j as int));
                if j > pos && s@[j - 1] == '\r' {
                    assert(fl.last() == '\r');
                    assert(strip_cr(fl) =~= s@.subrange(pos as int, end as int));
                } else {
                    if fl.len() > 0 {
                        assert(fl.last() == s@[j - 1]);
                    }
                    assert(strip_cr(fl) =~= s@.subrange(pos as int, end as int));
                }
                assert(rest.skip(j - pos + 1) =~= s@.skip(j + 1));
                assert(spec_lines(rest) == seq![lv] + spec_lines(s@.skip(j + 1)));
            } else {
                // no further newline: the remainder is one final line
                assert(rest =~= s@.subrange(pos as int, n as int));
                assert(lv =~= rest);
                assert(spec_lines(rest) == seq![lv]);
                assert(s@.skip(n as int) =~= Seq::<char>::empty());
                assert(spec_lines(rest) == seq![lv] + spec_lines(s@.skip(n as int)));
            }
        }
        let ghost ov = out@;
        out.push(line);
        if j < n {
            pos = j + 1;
        } else {
            pos = n;
        }
        proof {
            assert(out@ == ov.push(line));
            assert forall|k: int| 0 <= k < out@.len() implies out@[k].deep_view() == dv.push(
                lv,
            )[k] by {
                if k < ov.len() {
                    assert(out@[k] == ov[k]);
                } else {
                    assert(out@[k] == line);
                }
            }
            assert(out.deep_view() =~= dv.push(lv));
            assert(dv.push(lv) =~= dv + seq![lv]);
            assert((dv + seq![lv]) + spec_lines(s@.skip(pos as int)) =~= dv + (seq![lv]
                + spec_lines(s@.skip(pos as int))));
        }
    }
    proof {
        assert(s@.skip(n as int) =~= Seq::<char>::empty());
        assert(out.deep_view() + spec_lines(s@.skip(pos as int)) =~= out.deep_view());
    }
    out
}

// --- Trimmed non-empty lines, and joining ---

pub open spec fn spec_nonempty(l: Seq<char>) -> bool {
    l.len() > 0
}

/// Each line trimmed, blank lines dropped.
pub open spec fn spec_content_lines(lines: Seq<Seq<char>>) -> Seq<Seq<char>> {
    lines.map_values(|l: Seq<char>| spec_trim(l)).filter(|l: Seq<char>| spec_nonempty(l))
}

pub fn content_lines_of(lines: &Vec<String>) -> (r: Vec<Vec<char>>)
    ensures
        r.deep_view() == spec_content_lines(lines.deep_view()),
{
    let mut r: Vec<Vec<char>> = Vec::new();
    let mut i: usize = 0;
    proof {
        reveal(Seq::filter);
        assert(lines.deep_view().take(0) =~= Seq::<Seq<char>>::empty());
        assert(r.deep_view() =~= spec_content_lines(lines.deep_view().take(0)));
    }
    while i < lines.len()
        invariant
            i <= lines@.len(),
            lines.deep_view().len() == lines@.len(),
            forall|k: int|
                0 <= k < lines@.len() ==> lines.deep_view()[k] == #[trigger] lines@[k]@,
            r.deep_view() == spec_content_lines(lines.deep_view().take(i as int)),
        decreases lines@.len() - i,
    {
        let t = trim_chars(&chars_of(&lines[i]));
        let ghost dl = lines.deep_view();
        let ghost dr = r.deep_view();
        if t.len() > 0 {
            let ghost rv = r@;
            let ghost tv = t@;
            r.push(t);
            proof {
                assert forall|k: int| 0 <= k < r@.len() implies r@[k].deep_view() == dr.push(
                    tv,
                )[k] by {
                    if k < rv.len() {
                        assert(r@[k] == rv[k]);
                    }
                }
                assert(r.deep_view() =~= dr.push(tv));
            }
        }
        i = i + 1;
        proof {
            reveal(Seq::filter);
            let pre = dl.take(i - 1);
            let cur = dl.take(i as int);
            assert(cur.drop_last() =~= pre);
            assert(cur.last() == dl[i - 1]);
            let m = cur.map_values(|l: Seq<char>| spec_trim(l));
            assert(m.drop_last() =~= pre.map_values(|l: Seq<char>| spec_trim(l)));
            assert(m.last() == spec_trim(dl[i - 1]));
            assert(m =~= m.drop_last().push(m.last()));
        }
    }
    proof {
        assert(lines.deep_view().take(lines@.len() as int) =~= lines.deep_view());
    }
    r
}

/// The lines joined with a single `'\n'` between them.
pub open spec fn spec_join_nl(ls: Seq<Seq<char>>) -> Seq<char>
    decreases ls.len(),
{
    if ls.len() == 0 {
        Seq::empty()
    } else if ls.len() == 1 {
        ls[0]
    } else {
        ls[0] + seq!['\n'] + spec_join_nl(ls.drop_first())
    }
}

proof fn lemma_join_push(ls: Seq<Seq<char>>, x: Seq<char>)
    requires
        ls.len() >= 1,
    ensures
        spec_join_nl(ls.push(x)) == spec_join_nl(ls) + seq!['\n'] + x,
    decreases ls.len(),
{
    if ls.len() == 1 {
        let p = ls.push(x);
        assert(p.drop_first() =~= seq![x]);
        assert(spec_join_nl(seq![x]) == seq![x][0]);
        assert(p[0] == ls[0]);
        assert(spec_join_nl(p) == ls[0] + seq!['\n'] + x);
    } else {
        lemma_join_push(ls.drop_first(), x);
        assert(ls.push(x).drop_first() =~= ls.drop_first().push(x));
        assert(spec_join_nl(ls) + seq!['\n'] + x =~= ls[0] + seq!['\n'] + (spec_join_nl(
            ls.drop_first(),
        ) + seq!['\n'] + x));
    }
}

pub fn join_nl(ls: &Vec<Vec<char>>) -> (r: Vec<char>)
    ensures
        r@ == spec_join_nl(ls.deep_view()),
{
    let mut r: Vec<char> = Vec::new();
    let mut i: usize = 0;
    proof {
        assert(ls.deep_view().take(0) =~= Seq::<Seq<char>>::empty());
    }
    while i < ls.len()
        invariant
            i <= ls@.len(),
            ls.deep_view().len() == ls@.len(),
            forall|k: int| 0 <= k < ls@.len() ==> ls.deep_view()[k] == #[trigger] ls@[k]@,
            r@ == spec_join_nl(ls.deep_view().take(i as int)),
        decreases ls@.len() - i,
    {
        if i > 0 {
            r.push('\n');
        }
        let line = &ls[i];
        let mut j: usize = 0;
        let ghost base = r@;
        while j < line.len()
            invariant
                j <= line@.len(),
                r@ == base + line@.take(j as int),
            decreases line@.len() - j,
        {
            r.push(line[j]);
            j = j + 1;
            assert(r@ =~= base + line@.take(j as int));
        }
        proof {
            assert(line@.take(line@.len() as int) =~= line@);
            let pre = ls.deep_view().take(i as int);
            let cur = ls.deep_view().take(i + 1);
            assert(cur =~= pre.push(ls.deep_view()[i as int]));
            if i == 0 {
                assert(spec_join_nl(cur) == cur[0]);
                assert(r@ =~= cur[0]);
            } else {
                lemma_join_push(pre, ls.deep_view()[i as int]);
                assert(r@ =~= spec_join_nl(pre) + seq!['\n'] + line@);
            }
        }
        i = i + 1;
    }
    proof {
        assert(ls.deep_view().take(ls@.len() as int) =~= ls.deep_view());
    }
    r
}

// --- Decimal numerals ---

pub open spec fn spec_digit_char(d: int) -> char {
    if d == 0 {
        '0'
    } else if d == 1 {
        '1'
    } else if d == 2 {
        '2'
    } else if d == 3 {
        '3'
    } else if d == 4 {
        '4'
    } else if d == 5 {
        '5'
    } else if d == 6 {
        '6'
    } else if d == 7 {
        '7'
    } else if d == 8 {
        '8'
    } else {
        '9'
    }
}

/// The decimal numeral of a non-negative integer, without sign or padding.
pub open spec fn spec_dec(n: int) -> Seq<char>
    decreases n,
{
    if n < 10 {
        seq![spec_digit_char(n)]
    } else {
        spec_dec(n / 10).push(spec_digit_char(n % 10))
    }
}

fn digit_char(d: u64) -> (c: char)
    requires
        d < 10,
    ensures
        c == spec_digit_char(d as int),
{
    if d == 0 {
        '0'
    } else if d == 1 {
        '1'
    } else if d == 2 {
        '2'
    } else if d == 3 {
        '3'
    } else if d == 4 {
        '4'
    } else if d == 5 {
        '5'
    } else if d == 6 {
        '6'
    } else if d == 7 {
        '7'
    } else if d == 8 {
        '8'
    } else {
        '9'
    }
}

/// The decimal digits of `n`, most significant first.
pub fn dec_chars(n: u64) -> (r: Vec<char>)
    ensures
        r@ == spec_dec(n as int),
    decreases n,
{
    if n < 10 {
        let mut r: Vec<char> = Vec::new();
        r.push(digit_char(n));
        proof {
            assert(r@ =~= seq![spec_digit_char(n as int)]);
        }
        r
    } else {
        let mut r = dec_chars(n / 10);
        r.push(digit_char(n % 10));
        r
    }
}

/// The value of a string of decimal digits.
pub open spec fn dec_val(s: Seq<char>) -> int
    decreases s.len(),
{
    if s.len() == 0 {
        0
    } else {
        dec_val(s.drop_last()) * 10 + (s.last() as int - '0' as int)
    }
}

pub open spec fn all_digits(s: Seq<char>) -> bool {
    forall|i: int| 0 <= i < s.len() ==> spec_is_digit(#[trigger] s[i])
}

/// How `str::parse::<u32>` reads a string: an optional leading `'+'`, then
/// one or more decimal digits whose value fits in a `u32`.
pub open spec fn spec_parse_u32(s: Seq<char>) -> Option<u32> {
    let t = if s.len() > 0 && s[0] == '+' {
        s.drop_first()
    } else {
        s
    };
    if t.len() > 0 && all_digits(t) && dec_val(t) <= u32::MAX {
        Some(dec_val(t) as u32)
    } else {
        None
    }
}

proof fn lemma_dec_val_nonneg(s: Seq<char>)
    requires
        all_digits(s),
    ensures
        dec_val(s) >= 0,
    decreases s.len(),
{
    if s.len() > 0 {
        let t = s.drop_last();
        assert(forall|i: int| 0 <= i < t.len() ==> spec_is_digit(#[trigger] t[i]));
        lemma_dec_val_nonneg(t);
        assert(spec_is_digit(s.last()));
    }
}

proof fn lemma_dec_val_take_mono(s: Seq<char>, k: int)
    requires
        all_digits(s),
        0 <= k <= s.len(),
    ensures
        dec_val(s.take(k)) <= dec_val(s),
    decreases s.len() - k,
{
    if k < s.len() {
        lemma_dec_val_take_mono(s, k + 1);
        let p = s.take(k + 1);
        assert(p.drop_last() =~= s.take(k));
        assert(forall|i: int| 0 <= i < p.len() ==> spec_is_digit(#[trigger] p[i]));
        lemma_dec_val_nonneg(s.take(k));
        assert(spec_is_digit(p.last()));
        assert(dec_val(p) == dec_val(s.take(k)) * 10 + (p.last() as int - '0' as int));
    } else {
        assert(s.take(k) =~= s);
    }
}

/// Parse the characters of `v` as `str::parse::<u32>` would.
pub fn parse_u32_chars(v: &Vec<char>) -> (r: Option<u32>)
    ensures
        r == spec_parse_u32(v@),
{
    let start: usize = if v.len() > 0 && v[0] == '+' {
        1
    } else {
        0
    };
    let ghost t = if v@.len() > 0 && v@[0] == '+' {
        v@.drop_first()
    } else {
        v@
    };
    proof {
        assert(t =~= v@.skip(start as int));
    }
    let n = v.len();
    if start == n {
        return None;
    }
    let mut acc: u32 = 0;
    let mut i: usize = start;
    while i < n
        invariant
            start <= i <= n,
            n == v@.len(),
            t == v@.skip(start as int),
            t == (if v@.len() > 0 && v@[0] == '+' {
                v@.drop_first()
            } else {
                v@
            }),
            all_digits(t.take(i - start)),
            acc == dec_val(t.take(i - start)),
        decreases n - i,
    {
        let c = v[i];
        if !is_digit(c) {
            proof {
                assert(t[i - start] == v@[i as int]);
                assert(!all_digits(t)) by {
                    assert(0 <= i - start < t.len() && !spec_is_digit(t[i - start]));
                }
            }
            return None;
        }
        let d: u32 = char_digit_val(c);
        let ghost pre = t.take(i - start);
        proof {
            assert(t.take(i + 1 - start).drop_last() =~= pre);
            assert(t.take(i + 1 - start).last() == c);
            assert(forall|j: int|
                0 <= j < t.take(i + 1 - start).len() ==> spec_is_digit(
                    #[trigger] t.take(i + 1 - start)[j],
                ));
        }
        if acc > (u32::MAX - d) / 10 {
            proof {
                let m = u32::MAX as int;
                let dd = d as int;
                let a = acc as int;
                assert(10 * ((m - dd) / 10) >= m - dd - 9);
                assert(a * 10 + dd > m);
                assert(dec_val(t.take(i + 1 - start)) == a * 10 + dd);
                lemma_dec_val_take_mono_digits(t, i + 1 - start);
            }
            return None;
        }
        proof {
            let m = u32::MAX as int;
            let dd = d as int;
            let a = acc as int;
            assert(10 * ((m - dd) / 10) <= m - dd);
            assert(a * 10 + dd <= m);
        }
        acc = acc * 10 + d;
        i = i + 1;
    }
    proof {
        assert(t.take(n - start) =~= t);
    }
    Some(acc)
}

/// When a digit prefix already exceeds `u32::MAX`, so does any longer prefix,
/// provided every examined character is a digit.
proof fn lemma_dec_val_take_mono_digits(t: Seq<char>, k: int)
    requires
        0 <= k <= t.len(),
        all_digits(t.take(k)),
        dec_val(t.take(k)) > u32::MAX,
    ensures
        !(all_digits(t) && dec_val(t) <= u32::MAX),
{
    if all_digits(t) {
        lemma_dec_val_take_mono(t, k);
    }
}

/// Push an element, tracked through the vector's deep view.
pub fn push_deep<T: DeepView>(v: &mut Vec<T>, x: T)
    ensures
        final(v).deep_view() == old(v).deep_view().push(x.deep_view()),
        final(v)@.len() == old(v)@.len() + 1,
{
    let ghost ov = v@;
    let ghost dv = v.deep_view();
    let ghost xv = x.deep_view();
    v.push(x);
    proof {
        assert forall|k: int| 0 <= k < v@.len() implies v@[k].deep_view() == dv.push(xv)[k] by {
            if k < ov.len() {
                assert(v@[k] == ov[k]);
            }
        }
        assert(v.deep_view() =~= dv.push(xv));
    }
}

fn char_digit_val(c: char) -> (d: u32)
    requires
        spec_is_digit(c),
    ensures
        d == c as int - '0' as int,
        d < 10,
{
    (c as u32) - ('0' as u32)
}

} // verus!
