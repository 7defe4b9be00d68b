//! Character and string helpers: whitespace trimming and first-occurrence
//! searches, with exact specifications over `Seq<char>`.

use vstd::prelude::*;

verus! {

/// The Unicode `White_Space` code points, the set that trimming removes.
pub open spec fn is_ws(c: char) -> bool {
    let u = c as u32;
    u == 0x20 || (0x09 <= u && u <= 0x0d) || u == 0x85 || u == 0xa0 || u == 0x1680 || (0x2000
        <= u && u <= 0x200a) || u == 0x2028 || u == 0x2029 || u == 0x202f || u == 0x205f || u
        == 0x3000
}

pub fn is_ws_char(c: char) -> (r: bool)
    ensures
        r == is_ws(c),
{
    let u = c as u32;
    u == 0x20 || (0x09 <= u && u <= 0x0d) || u == 0x85 || u == 0xa0 || u == 0x1680 || (0x2000
        <= u && u <= 0x200a) || u == 0x2028 || u == 0x2029 || u == 0x202f || u == 0x205f || u
        == 0x3000
}

/// The sequence with leading whitespace removed.
pub open spec fn trim_start_spec(s: Seq<char>) -> Seq<char>
    decreases s.len(),
{
    if s.len() > 0 && is_ws(s[0]) {
        trim_start_spec(s.drop_first())
    } else {
        s
    }
}

/// The sequence with trailing whitespace removed.
pub open spec fn trim_end_spec(s: Seq<char>) -> Seq<char>
    decreases s.len(),
{
    if s.len() > 0 && is_ws(s[s.len() - 1]) {
        trim_end_spec(s.drop_last())
    } else {
        s
    }
}

/// The sequence with surrounding whitespace removed.
pub open spec fn trim_spec(s: Seq<char>) -> Seq<char> {
    trim_end_spec(trim_start_spec(s))
}

pub proof fn lemma_trim_start_skip(s: Seq<char>, a: int)
    requires
        0 <= a <= s.len(),
        forall|j: int| 0 <= j < a ==> is_ws(s[j]),
        a == s.len() || !is_ws(s[a]),
    ensures
        trim_start_spec(s) == s.subrange(a, s.len() as int),
    decreases a,
{
    if a == 0 {
        assert(s.subrange(0, s.len() as int) =~= s);
    } else {
        let t = s.drop_first();
        assert(forall|j: int| 0 <= j < a - 1 ==> is_ws(t[j]));
        lemma_trim_start_skip(t, a - 1);
        assert(t.subrange(a - 1, t.len() as int) =~= s.subrange(a, s.len() as int));
    }
}

pub proof fn lemma_trim_end_skip(s: Seq<char>, b: int)
    requires
        0 <= b <= s.len(),
        forall|j: int| b <= j < s.len() ==> is_ws(s[j]),
        b == 0 || !is_ws(s[b - 1]),
    ensures
        trim_end_spec(s) == s.subrange(0, b),
    decreases s.len(),
{
    if b == s.len() {
        assert(s.subrange(0, b) =~= s);
    } else {
        let t = s.drop_last();
        assert(is_ws(s[s.len() - 1]));
        assert(forall|j: int| b <= j < t.len() ==> is_ws(t[j]));
        lemma_trim_end_skip(t, b);
        assert(t.subrange(0, b) =~= s.subrange(0, b));
    }
}

/// A trimmed sequence starts and ends with non-whitespace, and trimming it
/// again changes nothing.
pub proof fn lemma_trim_idempotent(s: Seq<char>)
    ensures
        trim_spec(trim_spec(s)) == trim_spec(s),
        trim_spec(s).len() > 0 ==> !is_ws(trim_spec(s)[0]),
        trim_spec(s).len() > 0 ==> !is_ws(trim_spec(s)[trim_spec(s).len() - 1]),
    decreases s.len(),
{
    lemma_trim_start_props(s);
    let t = trim_start_spec(s);
    lemma_trim_end_props(t);
    let u = trim_end_spec(t);
    if u.len() > 0 {
        lemma_trim_start_skip(u, 0);
        lemma_trim_end_skip(u, u.len() as int);
        assert(u.subrange(0, u.len() as int) =~= u);
    } else {
        assert(trim_spec(u) =~= u);
    }
}

/// `trim_start_spec(s)` is a suffix of `s` whose first element is not whitespace.
pub proof fn lemma_trim_start_props(s: Seq<char>)
    ensures
        trim_start_spec(s).len() > 0 ==> !is_ws(trim_start_spec(s)[0]),
        trim_start_spec(s).len() <= s.len(),
    decreases s.len(),
{
    if s.len() > 0 && is_ws(s[0]) {
        lemma_trim_start_props(s.drop_first());
    }
}

/// `trim_end_spec(s)` is a prefix of `s` whose last element is not whitespace,
/// and it preserves an untouched head.
pub proof fn lemma_trim_end_props(s: Seq<char>)
    ensures
        trim_end_spec(s).len() > 0 ==> !is_ws(trim_end_spec(s)[trim_end_spec(s).len() - 1]),
        trim_end_spec(s).len() <= s.len(),
        forall|j: int| 0 <= j < trim_end_spec(s).len() ==> trim_end_spec(s)[j] == s[j],
    decreases s.len(),
{
    if s.len() > 0 && is_ws(s[s.len() - 1]) {
        let t = s.drop_last();
        lemma_trim_end_props(t);
        assert forall|j: int| 0 <= j < trim_end_spec(s).len() implies trim_end_spec(s)[j] == s[
            j
        ] by {
            assert(trim_end_spec(s)[j] == t[j]);
            assert(t[j] == s[j]);
        }
    }
}

/// The trimmed sequence sits inside `s` at some offset, with nothing but
/// whitespace on either side.
pub proof fn lemma_trim_offsets(s: Seq<char>) -> (x: int)
    ensures
        0 <= x,
        x + trim_spec(s).len() <= s.len(),
        trim_spec(s) == s.subrange(x, x + trim_spec(s).len()),
        forall|j: int| 0 <= j < x ==> is_ws(s[j]),
        forall|j: int| x + trim_spec(s).len() <= j < s.len() ==> is_ws(s[j]),
    decreases s.len(),
{
    if s.len() == 0 {
        assert(trim_spec(s) =~= s.subrange(0, 0));
        0
    } else if is_ws(s[0]) {
        let t = s.drop_first();
        let x0 = lemma_trim_offsets(t);
        let x = x0 + 1;
        assert(trim_spec(s) == trim_spec(t));
        assert(t.subrange(x0, x0 + trim_spec(t).len()) =~= s.subrange(
            x,
            x + trim_spec(s).len(),
        ));
        assert forall|j: int| 0 <= j < x implies is_ws(s[j]) by {
            if j >= 1 {
                assert(is_ws(t[j - 1]));
                assert(t[j - 1] == s[j]);
            }
        }
        assert forall|j: int| x + trim_spec(s).len() <= j < s.len() implies is_ws(s[j]) by {
            assert(is_ws(t[j - 1]));
            assert(t[j - 1] == s[j]);
        }
        x
    } else if is_ws(s[s.len() - 1]) {
        let t = s.drop_last();
        assert(trim_start_spec(s) == s);
        assert(trim_start_spec(t) == t);
        assert(trim_spec(s) == trim_end_spec(s));
        assert(trim_spec(t) == trim_end_spec(t));
        assert(trim_end_spec(s) == trim_end_spec(t));
        let x0 = lemma_trim_offsets(t);
        assert(t.subrange(x0, x0 + trim_spec(t).len()) =~= s.subrange(
            x0,
            x0 + trim_spec(s).len(),
        ));
        assert forall|j: int| x0 + trim_spec(s).len() <= j < s.len() implies is_ws(s[j]) by {
            if j < s.len() - 1 {
                assert(is_ws(t[j]));
                assert(t[j] == s[j]);
            }
        }
        x0
    } else {
        assert(trim_start_spec(s) == s);
        assert(trim_end_spec(s) == s);
        assert(s.subrange(0, s.len() as int) =~= s);
        0
    }
}

/// Index of the first occurrence of `c` in `s`, or `-1` when absent.
pub open spec fn find_char(s: Seq<char>, c: char) -> int
    decreases s.len(),
{
    if s.len() == 0 {
        -1
    } else if s[0] == c {
        0
    } else {
        let r = find_char(s.drop_first(), c);
        if r == -1 {
            -1
        } else {
            r + 1
        }
    }
}

pub proof fn lemma_find_char_props(s: Seq<char>, c: char)
    ensures
        find_char(s, c) == -1 ==> (forall|j: int| 0 <= j < s.len() ==> s[j] != c),
        find_char(s, c) != -1 ==> 0 <= find_char(s, c) < s.len() && s[find_char(s, c)] == c && (
        forall|j: int| 0 <= j < find_char(s, c) ==> s[j] != c),
    decreases s.len(),
{
    if s.len() == 0 {
    } else if s[0] == c {
    } else {
        let t = s.drop_first();
        lemma_find_char_props(t, c);
        if find_char(t, c) == -1 {
            assert forall|j: int| 0 <= j < s.len() implies s[j] != c by {
                if j >= 1 {
                    assert(s[j] == t[j - 1]);
                }
            }
        } else {
            let r = find_char(t, c);
            assert(s[r + 1] == t[r]);
            assert forall|j: int| 0 <= j < r + 1 implies s[j] != c by {
                if j >= 1 {
                    assert(s[j] == t[j - 1]);
                }
            }
        }
    }
}

/// Index of the first occurrence of the two-character operator `==`, or `-1`.
pub open spec fn find_eq2(s: Seq<char>) -> int
    decreases s.len(),
{
    if s.len() < 2 {
        -1
    } else if s[0] == '=' && s[1] == '=' {
        0
    } else {
        let r = find_eq2(s.drop_first());
        if r == -1 {
            -1
        } else {
            r + 1
        }
    }
}

pub proof fn lemma_find_eq2_props(s: Seq<char>)
    ensures
        find_eq2(s) == -1 ==> (forall|j: int| 0 <= j < s.len() - 1 ==> !(#[trigger] s[j] == '=' && s[j + 1] == '=')),
        find_eq2(s) != -1 ==> 0 <= find_eq2(s) < s.len() - 1 && s[find_eq2(s)] == '=' && s[
            find_eq2(s) + 1] == '=' && (forall|j: int|
            0 <= j < find_eq2(s) ==> !(#[trigger] s[j] == '=' && s[j + 1] == '=')),
    decreases s.len(),
{
    if s.len() < 2 {
    } else if s[0] == '=' && s[1] == '=' {
    } else {
        let t = s.drop_first();
        lemma_find_eq2_props(t);
        if find_eq2(t) == -1 {
            assert forall|j: int| 0 <= j < s.len() - 1 implies !(#[trigger] s[j] == '=' && s[j
                + 1] == '=') by {
                if j >= 1 {
                    assert(s[j] == t[j - 1]);
                    assert(s[j + 1] == t[j]);
                }
            }
        } else {
            let r = find_eq2(t);
            assert(s[r + 1] == t[r]);
            assert(s[r + 2] == t[r + 1]);
            assert forall|j: int| 0 <= j < r + 1 implies !(#[trigger] s[j] == '=' && s[j + 1]
                == '=') by {
                if j >= 1 {
                    assert(s[j] == t[j - 1]);
                    assert(s[j + 1] == t[j]);
                }
            }
        }
    }
}

/// Scans `s` for the first occurrence of `c`.
pub fn str_find_char(s: &str, c: char) -> (r: Option<usize>)
    ensures
        match r {
            Some(i) => find_char(s@, c) == i as int,
            None => find_char(s@, c) == -1,
        },
{
    let n = s.unicode_len();
    let mut i: usize = 0;
    while i < n
        invariant
            0 <= i <= n,
            n == s@.len(),
            forall|j: int| 0 <= j < i ==> s@[j] != c,
        decreases n - i,
    {
        if s.get_char(i) == c {
            proof {
                lemma_find_char_props(s@, c);
            }
            return Some(i);
        }
        i = i + 1;
    }
    proof {
        lemma_find_char_props(s@, c);
    }
    None
}

/// Scans `s` for the first occurrence of the two-character operator `==`.
pub fn str_find_eq2(s: &str) -> (r: Option<usize>)
    ensures
        match r {
            Some(i) => find_eq2(s@) == i as int,
            None => find_eq2(s@) == -1,
        },
{
    let n = s.unicode_len();
    if n < 2 {
        proof {
            lemma_find_eq2_props(s@);
        }
        return None;
    }
    let mut i: usize = 0;
    while i < n - 1
        invariant
            0 <= i <= n - 1,
            n == s@.len(),
            n >= 2,
            forall|j: int| 0 <= j < i ==> !(#[trigger] s@[j] == '=' && s@[j + 1] == '='),
        decreases n - i,
    {
        if s.get_char(i) == '=' && s.get_char(i + 1) == '=' {
            proof {
                lemma_find_eq2_props(s@);
            }
            return Some(i);
        }
        i = i + 1;
    }
    proof {
        lemma_find_eq2_props(s@);
    }
    None
}

/// Copies `s[from..to]` with surrounding whitespace removed.
pub fn trim_range(s: &str, from: usize, to: usize) -> (r: String)
    requires
        from <= to <= s@.len(),
    ensures
        r@ == trim_spec(s@.subrange(from as int, to as int)),
{
    let mut a = from;
    while a < to && is_ws_char(s.get_char(a))
        invariant
            from <= a <= to <= s@.len(),
            forall|j: int| from <= j < a ==> is_ws(s@[j]),
        decreases to - a,
    {
        a = a + 1;
    }
    let mut b = to;
    while b > a && is_ws_char(s.get_char(b - 1))
        invariant
            a <= b <= to <= s@.len(),
            forall|j: int| b <= j < to ==> is_ws(s@[j]),
        decreases b,
    {
        b = b - 1;
    }
    let sub = s.substring_char(a, b);
    proof {
        let t = s@.subrange(from as int, to as int);
        assert(forall|j: int| 0 <= j < a - from ==> is_ws(t[j]));
        lemma_trim_start_skip(t, a - from);
        assert(t.subrange(a - from, t.len() as int) =~= s@.subrange(a as int, to as int));
        let t2 = s@.subrange(a as int, to as int);
        assert(forall|j: int| b - a <= j < t2.len() ==> is_ws(t2[j]));
        lemma_trim_end_skip(t2, b - a);
        assert(t2.subrange(0, b - a) =~= s@.subrange(a as int, b as int));
    }
    sub.to_owned()
}

/// Index of the last occurrence of `c` in `s`, or `-1` when absent.
pub open spec fn rfind_char(s: Seq<char>, c: char) -> int
    decreases s.len(),
{
    if s.len() == 0 {
        -1
    } else if s[s.len() - 1] == c {
        s.len() - 1
    } else {
        rfind_char(s.drop_last(), c)
    }
}

pub proof fn lemma_rfind_char_props(s: Seq<char>, c: char)
    ensures
        rfind_char(s, c) == -1 ==> (forall|j: int| 0 <= j < s.len() ==> s[j] != c),
        rfind_char(s, c) != -1 ==> 0 <= rfind_char(s, c) < s.len() && s[rfind_char(s, c)] == c
            && (forall|j: int| rfind_char(s, c) < j < s.len() ==> s[j] != c),
    decreases s.len(),
{
    if s.len() == 0 {
    } else if s[s.len() - 1] == c {
    } else {
        let t = s.drop_last();
        lemma_rfind_char_props(t, c);
        assert(forall|j: int| 0 <= j < t.len() ==> t[j] == s[j]);
        if rfind_char(t, c) == -1 {
            assert forall|j: int| 0 <= j < s.len() implies s[j] != c by {
                if j < s.len() - 1 {
                    assert(t[j] != c);
                }
            }
        } else {
            let r = rfind_char(t, c);
            assert(s[r] == t[r]);
            assert forall|j: int| r < j < s.len() implies s[j] != c by {
                if j < s.len() - 1 {
                    assert(t[j] != c);
                }
            }
        }
    }
}

/// The final non-empty `sep`-separated segment of `p`, ignoring trailing
/// separators; `None` when `p` holds nothing but separators.
pub open spec fn last_segment(p: Seq<char>, sep: char) -> Option<Seq<char>>
    decreases p.len(),
{
    if p.len() == 0 {
        None
    } else if p[p.len() - 1] == sep {
        last_segment(p.drop_last(), sep)
    } else {
        Some(p.subrange(rfind_char(p, sep) + 1, p.len() as int))
    }
}

pub proof fn lemma_last_segment_strip(p: Seq<char>, end: int, sep: char)
    requires
        0 <= end <= p.len(),
        forall|j: int| end <= j < p.len() ==> p[j] == sep,
    ensures
        last_segment(p, sep) == last_segment(p.subrange(0, end), sep),
    decreases p.len(),
{
    if p.len() == end {
        assert(p.subrange(0, end) =~= p);
    } else {
        assert(p[p.len() - 1] == sep);
        let t = p.drop_last();
        lemma_last_segment_strip(t, end, sep);
        assert(t.subrange(0, end) =~= p.subrange(0, end));
    }
}

/// Extracts the final non-empty `sep`-separated segment of `s`.
pub fn str_last_segment(s: &str, sep: char) -> (r: Option<String>)
    ensures
        r.deep_view() == last_segment(s@, sep),
{
    let n = s.unicode_len();
    let mut end = n;
    while end > 0 && s.get_char(end - 1) == sep
        invariant
            0 <= end <= n,
            n == s@.len(),
            forall|j: int| end <= j < n ==> s@[j] == sep,
        decreases end,
    {
        end = end - 1;
    }
    proof {
        lemma_last_segment_strip(s@, end as int, sep);
    }
    if end == 0 {
        proof {
            assert(s@.subrange(0, 0) =~= Seq::<char>::empty());
        }
        return None;
    }
    let mut start = end;
    while start > 0 && s.get_char(start - 1) != sep
        invariant
            0 <= start <= end <= n,
            n == s@.len(),
            forall|j: int| start <= j < end ==> s@[j] != sep,
        decreases start,
    {
        start = start - 1;
    }
    let seg = s.substring_char(start, end);
    proof {
        let p = s@.subrange(0, end as int);
        lemma_rfind_char_props(p, sep);
        assert(p[end - 1] == s@[end - 1]);
        if start == 0 {
            assert(forall|j: int| 0 <= j < p.len() ==> p[j] != sep);
            assert(rfind_char(p, sep) == -1);
        } else {
            assert(p[start - 1] == sep);
            assert(forall|j: int| start <= j < p.len() ==> p[j] != sep);
            assert(rfind_char(p, sep) == start - 1);
        }
        assert(p.subrange(rfind_char(p, sep) + 1, p.len() as int) =~= s@.subrange(
            start as int,
            end as int,
        ));
    }
    Some(seg.to_owned())
}

/// `s` cut at every newline, in order; one (possibly empty) piece more
/// than there are newlines.
pub open spec fn split_lines_spec(s: Seq<char>) -> Seq<Seq<char>>
    decreases s.len(),
{
    let i = find_char(s, '\n');
    if i < 0 || i >= s.len() {
        seq![s]
    } else {
        seq![s.subrange(0, i)] + split_lines_spec(s.subrange(i + 1, s.len() as int))
    }
}

/// Cuts `s` at every newline.
pub fn split_lines(s: &str) -> (r: Vec<String>)
    ensures
        r.deep_view() == split_lines_spec(s@),
    decreases s@.len(),
{
    let n = s.unicode_len();
    match str_find_char(s, '\n') {
        Some(i) => {
            proof {
                lemma_find_char_props(s@, '\n');
            }
            let first = s.substring_char(0, i).to_owned();
            let mut out = split_lines(s.substring_char(i + 1, n));
            let ghost rest_model = out.deep_view();
            out.insert(0, first);
            proof {
                assert(out.deep_view() =~= seq![s@.subrange(0, i as int)] + rest_model);
            }
            out
        },
        None => {
            let mut out: Vec<String> = Vec::new();
            out.push(s.to_owned());
            proof {
                assert(out.deep_view() =~= seq![s@]);
            }
            out
        },
    }
}

/// Whether `p` is a prefix of `s`.
pub open spec fn has_prefix(s: Seq<char>, p: Seq<char>) -> bool {
    s.len() >= p.len() && s.subrange(0, p.len() as int) == p
}

/// Compares the head of `s` against `p`, character by character.
pub fn str_has_prefix(s: &str, p: &str) -> (r: bool)
    ensures
        r == has_prefix(s@, p@),
{
    let n = s.unicode_len();
    let m = p.unicode_len();
    if m > n {
        return false;
    }
    let mut i: usize = 0;
    while i < m
        invariant
            0 <= i <= m <= n,
            n == s@.len(),
            m == p@.len(),
            forall|j: int| 0 <= j < i ==> s@[j] == p@[j],
        decreases m - i,
    {
        if s.get_char(i) != p.get_char(i) {
            proof {
                assert(s@.subrange(0, m as int)[i as int] != p@[i as int]);
            }
            return false;
        }
        i = i + 1;
    }
    proof {
        assert(s@.subrange(0, m as int) =~= p@);
    }
    true
}

/// Whether `c` matches the lower-case letter `l` up to ASCII case.
pub open spec fn char_eq_ci(c: char, l: char) -> bool {
    c == l || (l as u32 >= 32 && c as u32 == l as u32 - 32)
}

/// Whether `s` equals the lower-case word `lower`, ignoring ASCII case.
pub open spec fn eq_ignore_case(s: Seq<char>, lower: Seq<char>) -> bool {
    s.len() == lower.len() && forall|i: int| 0 <= i < s.len() ==> char_eq_ci(s[i], lower[i])
}

/// Compares `s` against the lower-case word `lower`, ignoring ASCII case.
pub fn str_eq_ignore_case(s: &str, lower: &str) -> (r: bool)
    ensures
        r == eq_ignore_case(s@, lower@),
{
    let n = s.unicode_len();
    let m = lower.unicode_len();
    if n != m {
        return false;
    }
    let mut i: usize = 0;
    while i < n
        invariant
            0 <= i <= n,
            n == s@.len(),
            n == lower@.len(),
            forall|j: int| 0 <= j < i ==> char_eq_ci(s@[j], lower@[j]),
        decreases n - i,
    {
        let c = s.get_char(i);
        let l = lower.get_char(i);
        let cu = c as u32;
        let lu = l as u32;
        if !(c == l || (lu >= 32 && cu == lu - 32)) {
            return false;
        }
        i = i + 1;
    }
    true
}

/// Relies on `String::push`: appends one character at the end.
#[verifier::external_body]
pub(crate) fn push_char(s: &mut String, c: char)
    ensures
        final(s)@ == old(s)@.push(c),
{
    s.push(c)
}

} // verus!
