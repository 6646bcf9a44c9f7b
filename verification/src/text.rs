//! Character-level string operations with their meaning stated over `Seq<char>`.
use vstd::prelude::*;

verus! {

broadcast use vstd::string::group_string_axioms;

// ---------------------------------------------------------------------------
// Building strings
// ---------------------------------------------------------------------------

/// `String::push`: the string afterwards is the old one with `c` at its end.
#[verifier::external_body]
pub(crate) fn push_char(s: &mut String, c: char)
    ensures
        final(s)@ == old(s)@.push(c),
{
    s.push(c);
}

/// The characters of `s`, in order.
pub fn chars_of(s: &str) -> (v: Vec<char>)
    ensures
        v@ == s@,
{
    let mut v: Vec<char> = Vec::new();
    for c in it: s.chars()
        invariant
            v@ == it.seq().take(it.index() as int),
            it.seq() == s@,
    {
        v.push(c);
        assert(it.seq().take(it.index() + 1) == it.seq().take(it.index() as int).push(c));
    }
    v
}

/// Appends the characters `v[from..to]` to `out`.
pub fn push_range(out: &mut String, v: &Vec<char>, from: usize, to: usize)
    requires
        from <= to <= v.len(),
    ensures
        final(out)@ == old(out)@ + v@.subrange(from as int, to as int),
{
    let mut i = from;
    while i < to
        invariant
            from <= i <= to <= v.len(),
            out@ == old(out)@ + v@.subrange(from as int, i as int),
        decreases to - i,
    {
        push_char(out, v[i]);
        assert(v@.subrange(from as int, i + 1) == v@.subrange(from as int, i as int).push(v@[i as int]));
        i = i + 1;
    }
}

/// A `String` holding the characters `v[from..to]`.
pub fn string_from_range(v: &Vec<char>, from: usize, to: usize) -> (s: String)
    requires
        from <= to <= v.len(),
    ensures
        s@ == v@.subrange(from as int, to as int),
{
    let mut s = String::new();
    push_range(&mut s, v, from, to);
    assert(Seq::<char>::empty() + v@.subrange(from as int, to as int) == v@.subrange(from as int, to as int));
    s
}

/// A `String` holding the characters of `v`.
pub fn string_from_chars(v: &Vec<char>) -> (s: String)
    ensures
        s@ == v@,
{
    let s = string_from_range(v, 0, v.len());
    assert(v@.subrange(0, v@.len() as int) == v@);
    s
}

/// A copy of `s` as a `String`.
pub fn owned(s: &str) -> (r: String)
    ensures
        r@ == s@,
{
    let v = chars_of(s);
    string_from_chars(&v)
}

// ---------------------------------------------------------------------------
// Whitespace and control characters
// ---------------------------------------------------------------------------

/// The Unicode `White_Space` property, which `str::trim` strips.
pub open spec fn is_white_space(c: char) -> bool {
    let u = c as u32;
    ||| 0x9 <= u <= 0xD
    ||| u == 0x20
    ||| u == 0x85
    ||| u == 0xA0
    ||| u == 0x1680
    ||| 0x2000 <= u <= 0x200A
    ||| u == 0x2028
    ||| u == 0x2029
    ||| u == 0x202F
    ||| u == 0x205F
    ||| u == 0x3000
}

pub fn white_space(c: char) -> (b: bool)
    ensures
        b == is_white_space(c),
{
    let u = c as u32;
    (0x9 <= u && u <= 0xD) || u == 0x20 || u == 0x85 || u == 0xA0 || u == 0x1680 || (0x2000 <= u
        && u <= 0x200A) || u == 0x2028 || u == 0x2029 || u == 0x202F || u == 0x205F || u == 0x3000
}

/// The Unicode general category `Cc`, which `char::is_control` tests.
pub open spec fn is_control(c: char) -> bool {
    let u = c as u32;
    u <= 0x1F || (0x7F <= u <= 0x9F)
}

pub fn control(c: char) -> (b: bool)
    ensures
        b == is_control(c),
{
    let u = c as u32;
    u <= 0x1F || (0x7F <= u && u <= 0x9F)
}

/// The index of the first character at or after `i` that is not white space.
pub open spec fn skip_white_from(s: Seq<char>, i: int) -> int
    decreases s.len() - i,
{
    if 0 <= i < s.len() && is_white_space(s[i]) {
        skip_white_from(s, i + 1)
    } else {
        i
    }
}

/// The end of `s[lo..j]` once white space is dropped from its back.
pub open spec fn skip_white_back(s: Seq<char>, lo: int, j: int) -> int
    decreases j - lo,
{
    if lo < j && is_white_space(s[j - 1]) {
        skip_white_back(s, lo, j - 1)
    } else {
        j
    }
}

pub open spec fn trim_start_index(s: Seq<char>) -> int {
    skip_white_from(s, 0)
}

pub open spec fn trim_end_index(s: Seq<char>) -> int {
    skip_white_back(s, trim_start_index(s), s.len() as int)
}

/// `str::trim`: `s` without its leading and trailing white space.
pub open spec fn trim(s: Seq<char>) -> Seq<char> {
    s.subrange(trim_start_index(s), trim_end_index(s))
}

pub proof fn lemma_skip_white_from(s: Seq<char>, i: int)
    requires
        0 <= i <= s.len(),
    ensures
        i <= skip_white_from(s, i) <= s.len(),
    decreases s.len() - i,
{
    if 0 <= i < s.len() && is_white_space(s[i]) {
        lemma_skip_white_from(s, i + 1);
    }
}

pub proof fn lemma_skip_white_back(s: Seq<char>, lo: int, j: int)
    requires
        lo <= j,
    ensures
        lo <= skip_white_back(s, lo, j) <= j,
    decreases j - lo,
{
    if lo < j && is_white_space(s[j - 1]) {
        lemma_skip_white_back(s, lo, j - 1);
    }
}

/// `trim(s)` is the slice of `s` between its two trim indices.
pub proof fn lemma_trim_bounds(s: Seq<char>)
    ensures
        0 <= trim_start_index(s) <= trim_end_index(s) <= s.len(),
{
    lemma_skip_white_from(s, 0);
    lemma_skip_white_back(s, trim_start_index(s), s.len() as int);
}

/// The bounds of `trim(v@)` within `v`.
pub fn trim_bounds(v: &Vec<char>) -> (r: (usize, usize))
    ensures
        r.0 == trim_start_index(v@),
        r.1 == trim_end_index(v@),
        r.0 <= r.1 <= v.len(),
{
    let mut i: usize = 0;
    while i < v.len() && white_space(v[i])
        invariant
            i <= v.len(),
            skip_white_from(v@, i as int) == skip_white_from(v@, 0),
        decreases v.len() - i,
    {
        i = i + 1;
    }
    let mut j: usize = v.len();
    proof {
        lemma_skip_white_from(v@, 0);
    }
    while j > i && white_space(v[j - 1])
        invariant
            i <= j <= v.len(),
            i == trim_start_index(v@),
            skip_white_back(v@, i as int, j as int) == skip_white_back(v@, i as int, v.len() as int),
        decreases j,
    {
        j = j - 1;
    }
    (i, j)
}

/// `str::trim` on characters.
pub fn trim_chars(v: &Vec<char>) -> (s: String)
    ensures
        s@ == trim(v@),
{
    let (a, b) = trim_bounds(v);
    string_from_range(v, a, b)
}

/// `str::trim`.
pub fn trim_str(s: &str) -> (r: String)
    ensures
        r@ == trim(s@),
{
    let v = chars_of(s);
    trim_chars(&v)
}

// ---------------------------------------------------------------------------
// Searching
// ---------------------------------------------------------------------------

/// `pat` occurs in `s` at index `i`.
pub open spec fn matches_at(s: Seq<char>, pat: Seq<char>, i: int) -> bool {
    &&& 0 <= i
    &&& i + pat.len() <= s.len()
    &&& forall|k: int| 0 <= k < pat.len() ==> #[trigger] s[i + k] == pat[k]
}

/// The first index at or after `i` where `pat` occurs in `s`.
pub open spec fn find_from(s: Seq<char>, pat: Seq<char>, i: int) -> Option<int>
    decreases s.len() + 1 - i,
{
    if i < 0 || i + pat.len() > s.len() {
        None
    } else if matches_at(s, pat, i) {
        Some(i)
    } else {
        find_from(s, pat, i + 1)
    }
}

/// `str::find`, counted in characters: the first index where `pat` occurs in `s`.
pub open spec fn find(s: Seq<char>, pat: Seq<char>) -> Option<int> {
    find_from(s, pat, 0)
}

/// `str::contains`.
pub open spec fn contains(s: Seq<char>, pat: Seq<char>) -> bool {
    find(s, pat) is Some
}

/// `str::starts_with`.
pub open spec fn starts_with(s: Seq<char>, pat: Seq<char>) -> bool {
    matches_at(s, pat, 0)
}

/// `str::ends_with`.
pub open spec fn ends_with(s: Seq<char>, pat: Seq<char>) -> bool {
    pat.len() <= s.len() && matches_at(s, pat, s.len() - pat.len())
}

pub proof fn lemma_find_from(s: Seq<char>, pat: Seq<char>, i: int)
    requires
        0 <= i,
    ensures
        find_from(s, pat, i) matches Some(j) ==> i <= j && matches_at(s, pat, j) && (forall|k: int|
            i <= k < j ==> !#[trigger] matches_at(s, pat, k)),
        find_from(s, pat, i) is None ==> forall|k: int| i <= k ==> !#[trigger] matches_at(s, pat, k),
    decreases s.len() + 1 - i,
{
    if i + pat.len() > s.len() {
    } else if matches_at(s, pat, i) {
    } else {
        lemma_find_from(s, pat, i + 1);
    }
}

/// An occurrence at `j` makes `s` contain `pat`.
pub proof fn lemma_contains_at(s: Seq<char>, pat: Seq<char>, j: int)
    requires
        matches_at(s, pat, j),
    ensures
        contains(s, pat),
{
    lemma_find_from(s, pat, 0);
}

/// A slice of a text that does not contain `pat` does not contain it either.
pub proof fn lemma_slice_lacks(s: Seq<char>, pat: Seq<char>, a: int, b: int)
    requires
        0 <= a <= b <= s.len(),
        !contains(s, pat),
    ensures
        !contains(s.subrange(a, b), pat),
{
    let u = s.subrange(a, b);
    lemma_find_from(u, pat, 0);
    if contains(u, pat) {
        let j = find(u, pat)->Some_0;
        assert forall|k: int| 0 <= k < pat.len() implies #[trigger] s[a + j + k] == pat[k] by {
            assert(u[j + k] == s[a + j + k]);
        }
        assert(matches_at(s, pat, a + j));
        lemma_contains_at(s, pat, a + j);
    }
}

/// Before the first occurrence of a non-empty `pat` there is none.
pub proof fn lemma_before_first_lacks(s: Seq<char>, pat: Seq<char>)
    requires
        find(s, pat) is Some,
        pat.len() > 0,
    ensures
        !contains(s.take(find(s, pat)->Some_0), pat),
{
    let ci = find(s, pat)->Some_0;
    lemma_find_from(s, pat, 0);
    let u = s.take(ci);
    lemma_find_from(u, pat, 0);
    if contains(u, pat) {
        let j = find(u, pat)->Some_0;
        assert forall|k: int| 0 <= k < pat.len() implies #[trigger] s[j + k] == pat[k] by {
            assert(u[j + k] == s[j + k]);
        }
        assert(matches_at(s, pat, j));
    }
}

/// Whether `pat` occurs in `v` at index `i`.
pub fn matches_at_exec(v: &Vec<char>, pat: &Vec<char>, i: usize) -> (b: bool)
    ensures
        b == matches_at(v@, pat@, i as int),
{
    if i > v.len() || pat.len() > v.len() - i {
        return false;
    }
    let mut k: usize = 0;
    while k < pat.len()
        invariant
            i + pat.len() <= v.len(),
            k <= pat.len(),
            forall|m: int| 0 <= m < k ==> v@[i + m] == pat@[m],
        decreases pat.len() - k,
    {
        if v[i + k] != pat[k] {
            assert(v@[i + k as int] != pat@[k as int]);
            return false;
        }
        k = k + 1;
    }
    true
}

/// `str::find` on characters.
pub fn find_exec(v: &Vec<char>, pat: &Vec<char>) -> (r: Option<usize>)
    ensures
        r matches Some(i) ==> find(v@, pat@) == Some(i as int) && i + pat@.len() <= v@.len(),
        r is None ==> find(v@, pat@) is None,
{
    let mut i: usize = 0;
    while i <= v.len() && pat.len() <= v.len() - i
        invariant
            i <= v.len() + 1,
            find_from(v@, pat@, i as int) == find(v@, pat@),
        decreases v.len() + 1 - i,
    {
        if matches_at_exec(v, pat, i) {
            return Some(i);
        }
        i = i + 1;
    }
    None
}

/// `str::contains` on characters.
pub fn contains_exec(v: &Vec<char>, pat: &Vec<char>) -> (b: bool)
    ensures
        b == contains(v@, pat@),
{
    find_exec(v, pat).is_some()
}

/// `str::contains`.
pub fn str_contains(s: &str, pat: &str) -> (b: bool)
    ensures
        b == contains(s@, pat@),
{
    let v = chars_of(s);
    let p = chars_of(pat);
    contains_exec(&v, &p)
}

/// Whether two strings are equal.
pub fn str_equals(a: &str, b: &str) -> (r: bool)
    ensures
        r == (a@ == b@),
{
    let v = chars_of(a);
    let w = chars_of(b);
    if v.len() != w.len() {
        return false;
    }
    let same = matches_at_exec(&v, &w, 0);
    proof {
        if same {
            assert forall|k: int| 0 <= k < v@.len() implies v@[k] == w@[k] by {
                assert(v@[0 + k] == w@[k]);
            }
            assert(v@ =~= w@);
        } else if v@ == w@ {
            assert(matches_at(v@, w@, 0));
        }
    }
    same
}

/// `str::starts_with`.
pub fn str_starts_with(s: &str, pat: &str) -> (b: bool)
    ensures
        b == starts_with(s@, pat@),
{
    let v = chars_of(s);
    let p = chars_of(pat);
    matches_at_exec(&v, &p, 0)
}

/// `str::ends_with`.
pub fn str_ends_with(s: &str, pat: &str) -> (b: bool)
    ensures
        b == ends_with(s@, pat@),
{
    let v = chars_of(s);
    let p = chars_of(pat);
    if p.len() > v.len() {
        return false;
    }
    matches_at_exec(&v, &p, v.len() - p.len())
}

// ---------------------------------------------------------------------------
// Replacing
// ---------------------------------------------------------------------------

/// `str::replace` with a nonempty pattern: each occurrence of `pat`, taken from
/// left to right without overlap, is replaced by `rep`.
pub open spec fn replace_all(s: Seq<char>, pat: Seq<char>, rep: Seq<char>) -> Seq<char>
    decreases s.len(),
{
    if pat.len() == 0 || s.len() == 0 {
        s
    } else if matches_at(s, pat, 0) {
        rep + replace_all(s.skip(pat.len() as int), pat, rep)
    } else {
        seq![s[0]] + replace_all(s.drop_first(), pat, rep)
    }
}

/// `str::replace` on characters, for a nonempty pattern.
pub fn replace_exec(v: &Vec<char>, pat: &Vec<char>, rep: &Vec<char>) -> (r: Vec<char>)
    requires
        pat.len() > 0,
    ensures
        r@ == replace_all(v@, pat@, rep@),
{
    let mut out: Vec<char> = Vec::new();
    let mut i: usize = 0;
    assert(v@.skip(0) == v@);
    while i < v.len()
        invariant
            i <= v.len(),
            pat.len() > 0,
            out@ + replace_all(v@.skip(i as int), pat@, rep@) == replace_all(v@, pat@, rep@),
        decreases v.len() - i,
    {
        let ghost t = v@.skip(i as int);
        if matches_at_exec(v, pat, i) {
            assert(matches_at(t, pat@, 0)) by {
                assert forall|k: int| 0 <= k < pat@.len() implies #[trigger] t[0 + k] == pat@[k] by {
                    assert(v@[i + k] == pat@[k]);
                }
            }
            assert(t.skip(pat@.len() as int) == v@.skip(i + pat.len()));
            let mut k: usize = 0;
            let ghost before = out@;
            while k < rep.len()
                invariant
                    k <= rep.len(),
                    out@ == before + rep@.take(k as int),
                decreases rep.len() - k,
            {
                out.push(rep[k]);
                assert(rep@.take(k + 1) == rep@.take(k as int).push(rep@[k as int]));
                k = k + 1;
            }
            assert(rep@.take(rep@.len() as int) == rep@);
            assert(before + (rep@ + replace_all(v@.skip(i + pat.len()), pat@, rep@)) == out@
                + replace_all(v@.skip(i + pat.len()), pat@, rep@));
            i = i + pat.len();
        } else {
            assert(!matches_at(t, pat@, 0)) by {
                if matches_at(t, pat@, 0) {
                    assert forall|k: int| 0 <= k < pat@.len() implies #[trigger] v@[i + k] == pat@[k] by {
                        assert(t[0 + k] == pat@[k]);
                    }
                }
            }
            assert(t.drop_first() == v@.skip(i + 1));
            let ghost before = out@;
            out.push(v[i]);
            assert(before + (seq![v@[i as int]] + replace_all(v@.skip(i + 1), pat@, rep@)) == out@
                + replace_all(v@.skip(i + 1), pat@, rep@));
            i = i + 1;
        }
    }
    assert(v@.skip(i as int).len() == 0);
    assert(out@ + Seq::<char>::empty() == out@);
    out
}

// ---------------------------------------------------------------------------
// Splitting
// ---------------------------------------------------------------------------

/// `str::split` on one character: the pieces of `s` between occurrences of `sep`.
pub open spec fn split_char(s: Seq<char>, sep: char) -> Seq<Seq<char>>
    decreases s.len(),
{
    if s.len() == 0 {
        seq![Seq::<char>::empty()]
    } else {
        let p = split_char(s.drop_last(), sep);
        if s.last() == sep {
            p.push(Seq::<char>::empty())
        } else {
            p.update(p.len() - 1, p.last().push(s.last()))
        }
    }
}

pub proof fn lemma_split_char_nonempty(s: Seq<char>, sep: char)
    ensures
        split_char(s, sep).len() >= 1,
    decreases s.len(),
{
    if s.len() > 0 {
        lemma_split_char_nonempty(s.drop_last(), sep);
    }
}

/// A text without the separator is one piece.
pub proof fn lemma_split_char_whole(s: Seq<char>, sep: char)
    requires
        !s.contains(sep),
    ensures
        split_char(s, sep) == seq![s],
    decreases s.len(),
{
    if s.len() == 0 {
        assert(s =~= Seq::<char>::empty());
    } else {
        let d = s.drop_last();
        assert(!d.contains(sep)) by {
            if d.contains(sep) {
                let i = choose|i: int| 0 <= i < d.len() && d[i] == sep;
                assert(s[i] == sep);
            }
        }
        lemma_split_char_whole(d, sep);
        assert(s.last() != sep) by {
            assert(s[s.len() - 1] == s.last());
        }
        assert(d.push(s.last()) =~= s);
        assert(seq![d].update(0, d.push(s.last())) =~= seq![s]);
    }
}

/// Splitting `s`, the separator, then a text without it gives the pieces of
/// `s` followed by that text.
pub proof fn lemma_split_char_then(s: Seq<char>, sep: char, t: Seq<char>)
    requires
        !t.contains(sep),
    ensures
        split_char(s + seq![sep] + t, sep) == split_char(s, sep).push(t),
    decreases t.len(),
{
    let whole = s + seq![sep] + t;
    if t.len() == 0 {
        assert(whole.drop_last() =~= s);
        assert(whole.last() == sep);
        assert(t =~= Seq::<char>::empty());
    } else {
        let d = t.drop_last();
        assert(!d.contains(sep)) by {
            if d.contains(sep) {
                let i = choose|i: int| 0 <= i < d.len() && d[i] == sep;
                assert(t[i] == sep);
            }
        }
        lemma_split_char_then(s, sep, d);
        assert(whole.drop_last() =~= s + seq![sep] + d);
        assert(whole.last() == t.last());
        assert(t.last() != sep) by {
            assert(t[t.len() - 1] == t.last());
        }
        lemma_split_char_nonempty(s, sep);
        let p = split_char(s, sep).push(d);
        assert(p.update(p.len() - 1, p.last().push(t.last())) =~= split_char(s, sep).push(t)) by {
            assert(d.push(t.last()) =~= t);
        }
    }
}

/// The views of a sequence of strings.
pub open spec fn views(v: Seq<String>) -> Seq<Seq<char>> {
    v.map_values(|s: String| s@)
}

/// `str::split` on one character.
pub fn split_exec(v: &Vec<char>, sep: char) -> (parts: Vec<String>)
    ensures
        views(parts@) == split_char(v@, sep),
{
    let mut parts: Vec<String> = Vec::new();
    let mut cur = String::new();
    let mut i: usize = 0;
    while i < v.len()
        invariant
            i <= v.len(),
            views(parts@).push(cur@) == split_char(v@.take(i as int), sep),
        decreases v.len() - i,
    {
        let c = v[i];
        let ghost t = v@.take(i + 1);
        assert(t.drop_last() == v@.take(i as int));
        if c == sep {
            let ghost old_parts = views(parts@);
            let ghost old_cur = cur@;
            let done = cur;
            parts.push(done);
            cur = String::new();
            assert(views(parts@) == old_parts.push(old_cur));
        } else {
            let ghost old_parts = views(parts@);
            push_char(&mut cur, c);
            assert(views(parts@).push(cur@) == old_parts.push(cur@));
        }
        i = i + 1;
    }
    assert(v@.take(v@.len() as int) == v@);
    let ghost before = views(parts@);
    parts.push(cur);
    assert(views(parts@) == before.push(cur@));
    parts
}

/// `str::split` on one character.
pub fn split_str(s: &str, sep: char) -> (parts: Vec<String>)
    ensures
        views(parts@) == split_char(s@, sep),
{
    let v = chars_of(s);
    split_exec(&v, sep)
}

/// A line of `str::lines` that was ended by a newline loses a carriage return at its end.
pub open spec fn strip_cr(s: Seq<char>) -> Seq<char> {
    if s.len() > 0 && s.last() == '\r' {
        s.drop_last()
    } else {
        s
    }
}

/// `str::lines`: the pieces between newlines; a piece that a newline ends loses a
/// trailing carriage return, and an empty last piece is no line.
pub open spec fn lines(s: Seq<char>) -> Seq<Seq<char>> {
    let p = split_char(s, '\n');
    let body = p.take(p.len() - 1).map_values(|l: Seq<char>| strip_cr(l));
    if p.last().len() == 0 {
        body
    } else {
        body.push(p.last())
    }
}

/// `str::lines`.
pub fn lines_exec(v: &Vec<char>) -> (r: Vec<String>)
    ensures
        views(r@) == lines(v@),
{
    let parts = split_exec(v, '\n');
    proof {
        lemma_split_char_nonempty(v@, '\n');
    }
    let n = parts.len();
    let mut out: Vec<String> = Vec::new();
    let mut i: usize = 0;
    while i + 1 < n
        invariant
            n == parts.len() >= 1,
            views(parts@) == split_char(v@, '\n'),
            i <= n - 1,
            views(out@) == views(parts@).take(i as int).map_values(|l: Seq<char>| strip_cr(l)),
        decreases n - i,
    {
        let pv = chars_of(parts[i].as_str());
        let line = if pv.len() > 0 && pv[pv.len() - 1] == '\r' {
            string_from_range(&pv, 0, pv.len() - 1)
        } else {
            string_from_chars(&pv)
        };
        proof {
            assert(pv@ == views(parts@)[i as int]);
            if pv@.len() > 0 && pv@.last() == '\r' {
                assert(pv@.subrange(0, pv@.len() - 1) == pv@.drop_last());
            }
        }
        let ghost before = views(out@);
        out.push(line);
        assert(views(out@) == before.push(line@));
        assert(views(parts@).take(i + 1) == views(parts@).take(i as int).push(views(parts@)[i as int]));
        i = i + 1;
    }
    let lastv = chars_of(parts[n - 1].as_str());
    if lastv.len() > 0 {
        let ghost before = views(out@);
        out.push(string_from_chars(&lastv));
        assert(views(out@) == before.push(lastv@));
    }
    out
}

// ---------------------------------------------------------------------------
// UTF-8 byte offsets
// ---------------------------------------------------------------------------

/// The number of bytes that UTF-8 takes for `c`.
pub open spec fn utf8_width(c: char) -> nat {
    let u = c as u32;
    if u < 0x80 {
        1
    } else if u < 0x800 {
        2
    } else if u < 0x10000 {
        3
    } else {
        4
    }
}

/// The number of bytes that UTF-8 takes for `s`, which `str::len` returns.
pub open spec fn utf8_len(s: Seq<char>) -> nat
    decreases s.len(),
{
    if s.len() == 0 {
        0
    } else {
        utf8_len(s.drop_last()) + utf8_width(s.last())
    }
}

fn utf8_width_exec(c: char) -> (w: u128)
    ensures
        w == utf8_width(c),
{
    let u = c as u32;
    if u < 0x80 {
        1
    } else if u < 0x800 {
        2
    } else if u < 0x10000 {
        3
    } else {
        4
    }
}

/// The byte length of `v[..n]`.
pub fn utf8_len_prefix(v: &Vec<char>, n: usize) -> (b: u128)
    requires
        n <= v.len(),
    ensures
        b == utf8_len(v@.take(n as int)),
{
    let mut acc: u128 = 0;
    let mut k: usize = 0;
    while k < n
        invariant
            k <= n <= v.len(),
            acc == utf8_len(v@.take(k as int)),
            acc <= 4 * k,
        decreases n - k,
    {
        assert(v@.take(k + 1).drop_last() == v@.take(k as int));
        acc = acc + utf8_width_exec(v[k]);
        k = k + 1;
    }
    acc
}

/// The character index at or after `k` whose prefix of `s` is `b` bytes long,
/// if byte offset `b` falls on a character boundary.
pub open spec fn boundary_from(s: Seq<char>, k: int, b: int) -> Option<int>
    decreases s.len() + 1 - k,
{
    if k < 0 || k > s.len() {
        None
    } else if utf8_len(s.take(k)) == b {
        Some(k)
    } else if utf8_len(s.take(k)) > b {
        None
    } else {
        boundary_from(s, k + 1, b)
    }
}

/// The character index of byte offset `b` in `s`, when `b` is a character boundary.
pub open spec fn char_index_of_byte(s: Seq<char>, b: int) -> Option<int> {
    boundary_from(s, 0, b)
}

pub proof fn lemma_boundary_from(s: Seq<char>, k: int, b: int)
    requires
        0 <= k,
    ensures
        boundary_from(s, k, b) matches Some(j) ==> k <= j <= s.len() && utf8_len(s.take(j)) == b,
    decreases s.len() + 1 - k,
{
    if k > s.len() {
    } else if utf8_len(s.take(k)) == b {
    } else if utf8_len(s.take(k)) > b {
    } else {
        lemma_boundary_from(s, k + 1, b);
    }
}

/// The character index of byte offset `b` in `v`, when `b` is a character boundary.
pub fn char_index_of_byte_exec(v: &Vec<char>, b: u128) -> (r: Option<usize>)
    ensures
        r matches Some(k) ==> char_index_of_byte(v@, b as int) == Some(k as int),
        r is None ==> char_index_of_byte(v@, b as int) is None,
{
    let mut acc: u128 = 0;
    let mut k: usize = 0;
    assert(v@.take(0).len() == 0);
    loop
        invariant
            k <= v.len(),
            acc == utf8_len(v@.take(k as int)),
            acc <= 4 * k,
            boundary_from(v@, k as int, b as int) == char_index_of_byte(v@, b as int),
        decreases v.len() - k,
    {
        if acc == b {
            return Some(k);
        }
        if acc > b {
            return None;
        }
        if k == v.len() {
            assert(boundary_from(v@, k + 1, b as int) is None);
            return None;
        }
        assert(v@.take(k + 1).drop_last() == v@.take(k as int));
        acc = acc + utf8_width_exec(v[k]);
        k = k + 1;
    }
}

// ---------------------------------------------------------------------------
// Integers
// ---------------------------------------------------------------------------

pub open spec fn is_digit(c: char) -> bool {
    '0' <= c <= '9'
}

pub open spec fn digit_value(c: char) -> int {
    (c as u32) - ('0' as u32)
}

pub open spec fn all_digits(s: Seq<char>) -> bool {
    forall|i: int| 0 <= i < s.len() ==> is_digit(#[trigger] s[i])
}

/// The number that a string of decimal digits writes.
pub open spec fn digits_value(s: Seq<char>) -> int
    decreases s.len(),
{
    if s.len() == 0 {
        0
    } else {
        10 * digits_value(s.drop_last()) + digit_value(s.last())
    }
}

/// The integer that `s` writes under the grammar of `i64::from_str`: an optional
/// `+` or `-`, then one or more ASCII digits.
pub open spec fn integer_value(s: Seq<char>) -> Option<int> {
    if s.len() > 0 && (s[0] == '+' || s[0] == '-') {
        let d = s.drop_first();
        if d.len() > 0 && all_digits(d) {
            Some(if s[0] == '-' { -digits_value(d) } else { digits_value(d) })
        } else {
            None
        }
    } else if s.len() > 0 && all_digits(s) {
        Some(digits_value(s))
    } else {
        None
    }
}

/// `str::parse::<i64>`: the value of `s` when it is an integer in range.
pub open spec fn parse_i64(s: Seq<char>) -> Option<i64> {
    match integer_value(s) {
        Some(v) => if i64::MIN <= v <= i64::MAX {
            Some(v as i64)
        } else {
            None
        },
        None => None,
    }
}

/// The value of the digits `v[from..]`, or `None` when it exceeds `2^63`.
fn digits_magnitude(v: &Vec<char>, from: usize) -> (r: Option<u64>)
    requires
        from <= v.len(),
        all_digits(v@.skip(from as int)),
    ensures
        r matches Some(m) ==> m == digits_value(v@.skip(from as int)) && m <= 0x8000_0000_0000_0000,
        r is None ==> digits_value(v@.skip(from as int)) > 0x8000_0000_0000_0000,
{
    let mut acc: u64 = 0;
    let mut i = from;
    assert(v@.subrange(from as int, from as int).len() == 0);
    while i < v.len()
        invariant
            from <= i <= v.len(),
            all_digits(v@.skip(from as int)),
            acc == digits_value(v@.subrange(from as int, i as int)),
            acc <= 0x8000_0000_0000_0000,
        decreases v.len() - i,
    {
        let c = v[i];
        assert(v@.skip(from as int)[i - from] == c);
        let d = (c as u32 - '0' as u32) as u64;
        let ghost pre = v@.subrange(from as int, i as int);
        assert(v@.subrange(from as int, i + 1).drop_last() == pre);
        if acc > 922_337_203_685_477_580 || (acc == 922_337_203_685_477_580 && d > 8) {
            // Every further digit keeps the value above the bound.
            let mut j = i + 1;
            proof {
                assert(digits_value(v@.subrange(from as int, i + 1)) > 0x8000_0000_0000_0000);
            }
            while j < v.len()
                invariant
                    from <= i < j <= v.len(),
                    all_digits(v@.skip(from as int)),
                    digits_value(v@.subrange(from as int, j as int)) > 0x8000_0000_0000_0000,
                decreases v.len() - j,
            {
                assert(v@.subrange(from as int, j + 1).drop_last() == v@.subrange(from as int, j as int));
                assert(v@.skip(from as int)[j - from] == v@[j as int]);
                j = j + 1;
            }
            assert(v@.subrange(from as int, v.len() as int) == v@.skip(from as int));
            return None;
        }
        acc = acc * 10 + d;
        i = i + 1;
    }
    assert(v@.subrange(from as int, v.len() as int) == v@.skip(from as int));
    Some(acc)
}

/// `str::parse::<i64>` on characters.
pub fn parse_i64_exec(v: &Vec<char>) -> (r: Option<i64>)
    ensures
        r == parse_i64(v@),
{
    if v.len() == 0 {
        return None;
    }
    let signed = v[0] == '+' || v[0] == '-';
    let from: usize = if signed { 1 } else { 0 };
    if from == v.len() {
        return None;
    }
    let mut i = from;
    while i < v.len()
        invariant
            from <= i <= v.len(),
            v.len() > 0,
            from == (if signed { 1usize } else { 0usize }),
            signed == (v@[0] == '+' || v@[0] == '-'),
            forall|k: int| from <= k < i ==> is_digit(#[trigger] v@[k]),
        decreases v.len() - i,
    {
        if !('0' <= v[i] && v[i] <= '9') {
            proof {
                if signed {
                    assert(v@.drop_first()[i - 1] == v@[i as int]);
                    assert(!all_digits(v@.drop_first()));
                } else {
                    assert(!is_digit(v@[i as int]));
                    assert(!all_digits(v@));
                }
            }
            return None;
        }
        i = i + 1;
    }
    assert(all_digits(v@.skip(from as int))) by {
        assert forall|k: int| 0 <= k < v@.skip(from as int).len() implies is_digit(
            #[trigger] v@.skip(from as int)[k],
        ) by {
            assert(v@.skip(from as int)[k] == v@[from + k]);
        }
    }
    if signed {
        assert(v@.skip(1) == v@.drop_first());
    } else {
        assert(v@.skip(0) == v@);
    }
    match digits_magnitude(v, from) {
        None => None,
        Some(m) => {
            if v[0] == '-' {
                if m == 0x8000_0000_0000_0000 {
                    Some(i64::MIN)
                } else {
                    Some(0 - (m as i64))
                }
            } else if m == 0x8000_0000_0000_0000 {
                None
            } else {
                Some(m as i64)
            }
        },
    }
}

/// `str::parse::<i64>`.
pub fn parse_i64_str(s: &str) -> (r: Option<i64>)
    ensures
        r == parse_i64(s@),
{
    let v = chars_of(s);
    parse_i64_exec(&v)
}

/// The character of a decimal digit.
pub open spec fn digit_char(d: nat) -> char {
    if d == 0 { '0' } else if d == 1 { '1' } else if d == 2 { '2' } else if d == 3 { '3' }
    else if d == 4 { '4' } else if d == 5 { '5' } else if d == 6 { '6' } else if d == 7 { '7' }
    else if d == 8 { '8' } else { '9' }
}

fn digit_char_exec(d: u64) -> (c: char)
    requires
        d < 10,
    ensures
        c == digit_char(d as nat),
{
    if d == 0 { '0' } else if d == 1 { '1' } else if d == 2 { '2' } else if d == 3 { '3' }
    else if d == 4 { '4' } else if d == 5 { '5' } else if d == 6 { '6' } else if d == 7 { '7' }
    else if d == 8 { '8' } else { '9' }
}

/// The decimal digits of `n`.
pub open spec fn digits_of(n: nat) -> Seq<char>
    decreases n,
{
    if n < 10 {
        seq![digit_char(n)]
    } else {
        digits_of(n / 10) + seq![digit_char(n % 10)]
    }
}

/// The decimal form of `n`, as `Display` writes an integer.
pub open spec fn decimal(n: int) -> Seq<char> {
    if n < 0 {
        seq!['-'] + digits_of((-n) as nat)
    } else {
        digits_of(n as nat)
    }
}

fn push_digits(out: &mut String, n: u64)
    ensures
        final(out)@ == old(out)@ + digits_of(n as nat),
    decreases n,
{
    if n >= 10 {
        push_digits(out, n / 10);
    }
    let c = digit_char_exec(n % 10);
    push_char(out, c);
}

/// Appends the decimal digits of `n` to `out`.
pub fn push_unsigned(out: &mut String, n: u64)
    ensures
        final(out)@ == old(out)@ + digits_of(n as nat),
{
    push_digits(out, n);
}

/// Appends the decimal form of `n` to `out`.
pub fn push_decimal(out: &mut String, n: i64)
    ensures
        final(out)@ == old(out)@ + decimal(n as int),
{
    if n < 0 {
        push_char(out, '-');
        let m: u64 = if n == i64::MIN {
            0x8000_0000_0000_0000
        } else {
            (0 - n) as u64
        };
        push_digits(out, m);
    } else {
        push_digits(out, n as u64);
    }
}

/// The decimal form of `n`.
pub fn decimal_string(n: i64) -> (s: String)
    ensures
        s@ == decimal(n as int),
{
    let mut s = String::new();
    push_decimal(&mut s, n);
    s
}

} // verus!
