//! Choosing the filename a downloaded response body is saved under.

use vstd::prelude::*;

use crate::text::{
    find_char, has_prefix, last_segment, lemma_find_char_props, str_find_char, str_has_prefix,
    str_last_segment, trim_range, trim_spec,
};
use crate::urlparts::{parse_url_parts, url_parse_ok, url_path_of};

verus! {

/// The filename suggested by a URL: the final non-empty segment of its
/// path, or `index.html` when the URL does not parse or its path has no
/// segment.
pub open spec fn url_filename_spec(url: Seq<char>) -> Seq<char> {
    if url_parse_ok(url) {
        match last_segment(url_path_of(url), '/') {
            Some(seg) => seg,
            None => "index.html"@,
        }
    } else {
        "index.html"@
    }
}

/// Extracts the download filename suggested by a URL.
pub fn extract_filename_from_url(url: &str) -> (r: String)
    ensures
        r@ == url_filename_spec(url@),
{
    match parse_url_parts(url) {
        Some(parts) => match str_last_segment(parts.path.as_str(), '/') {
            Some(seg) => seg,
            None => "index.html".to_owned(),
        },
        None => "index.html".to_owned(),
    }
}

/// The characters stripped from around a filename taken out of a
/// `Content-Disposition` header.
pub open spec fn is_quote(c: char) -> bool {
    c == '"' || c == '\''
}

fn is_quote_char(c: char) -> (r: bool)
    ensures
        r == is_quote(c),
{
    c == '"' || c == '\''
}

/// The sequence with leading quote characters removed.
pub open spec fn qtrim_start(s: Seq<char>) -> Seq<char>
    decreases s.len(),
{
    if s.len() > 0 && is_quote(s[0]) {
        qtrim_start(s.drop_first())
    } else {
        s
    }
}

/// The sequence with trailing quote characters removed.
pub open spec fn qtrim_end(s: Seq<char>) -> Seq<char>
    decreases s.len(),
{
    if s.len() > 0 && is_quote(s[s.len() - 1]) {
        qtrim_end(s.drop_last())
    } else {
        s
    }
}

/// The sequence with surrounding quote characters removed.
pub open spec fn qtrim(s: Seq<char>) -> Seq<char> {
    qtrim_end(qtrim_start(s))
}

proof fn lemma_qtrim_start_skip(s: Seq<char>, a: int)
    requires
        0 <= a <= s.len(),
        forall|j: int| 0 <= j < a ==> is_quote(s[j]),
        a == s.len() || !is_quote(s[a]),
    ensures
        qtrim_start(s) == s.subrange(a, s.len() as int),
    decreases a,
{
    if a == 0 {
        assert(s.subrange(0, s.len() as int) =~= s);
    } else {
        let t = s.drop_first();
        assert(forall|j: int| 0 <= j < a - 1 ==> is_quote(t[j]));
        lemma_qtrim_start_skip(t, a - 1);
        assert(t.subrange(a - 1, t.len() as int) =~= s.subrange(a, s.len() as int));
    }
}

proof fn lemma_qtrim_end_skip(s: Seq<char>, b: int)
    requires
        0 <= b <= s.len(),
        forall|j: int| b <= j < s.len() ==> is_quote(s[j]),
        b == 0 || !is_quote(s[b - 1]),
    ensures
        qtrim_end(s) == s.subrange(0, b),
    decreases s.len(),
{
    if b == s.len() {
        assert(s.subrange(0, b) =~= s);
    } else {
        let t = s.drop_last();
        assert(is_quote(s[s.len() - 1]));
        assert(forall|j: int| b <= j < t.len() ==> is_quote(t[j]));
        lemma_qtrim_end_skip(t, b);
        assert(t.subrange(0, b) =~= s.subrange(0, b));
    }
}

/// Copies `s[from..to]` with surrounding quote characters removed.
fn qtrim_range(s: &str, from: usize, to: usize) -> (r: String)
    requires
        from <= to <= s@.len(),
    ensures
        r@ == qtrim(s@.subrange(from as int, to as int)),
{
    let mut a = from;
    while a < to && is_quote_char(s.get_char(a))
        invariant
            from <= a <= to <= s@.len(),
            forall|j: int| from <= j < a ==> is_quote(s@[j]),
        decreases to - a,
    {
        a = a + 1;
    }
    let mut b = to;
    while b > a && is_quote_char(s.get_char(b - 1))
        invariant
            a <= b <= to <= s@.len(),
            forall|j: int| b <= j < to ==> is_quote(s@[j]),
        decreases b,
    {
        b = b - 1;
    }
    let sub = s.substring_char(a, b);
    proof {
        let t = s@.subrange(from as int, to as int);
        assert(forall|j: int| 0 <= j < a - from ==> is_quote(t[j]));
        lemma_qtrim_start_skip(t, a - from);
        assert(t.subrange(a - from, t.len() as int) =~= s@.subrange(a as int, to as int));
        let t2 = s@.subrange(a as int, to as int);
        assert(forall|j: int| b - a <= j < t2.len() ==> is_quote(t2[j]));
        lemma_qtrim_end_skip(t2, b - a);
        assert(t2.subrange(0, b - a) =~= s@.subrange(a as int, b as int));
    }
    sub.to_owned()
}

/// Index of the last occurrence of the marker `''` used by extended
/// `filename*=` parameters, or `-1`.
pub open spec fn rfind_qq(s: Seq<char>) -> int
    decreases s.len(),
{
    if s.len() < 2 {
        -1
    } else if s[s.len() - 2] == '\'' && s[s.len() - 1] == '\'' {
        s.len() - 2
    } else {
        rfind_qq(s.drop_last())
    }
}

proof fn lemma_rfind_qq_props(s: Seq<char>)
    ensures
        rfind_qq(s) == -1 ==> (forall|j: int| 0 <= j < s.len() - 1 ==> !(#[trigger] s[j] == '\''
            && s[j + 1] == '\'')),
        rfind_qq(s) != -1 ==> 0 <= rfind_qq(s) < s.len() - 1 && s[rfind_qq(s)] == '\'' && s[
            rfind_qq(s) + 1] == '\'' && (forall|j: int|
            rfind_qq(s) < j < s.len() - 1 ==> !(#[trigger] s[j] == '\'' && s[j + 1] == '\'')),
    decreases s.len(),
{
    if s.len() < 2 {
    } else if s[s.len() - 2] == '\'' && s[s.len() - 1] == '\'' {
    } else {
        let t = s.drop_last();
        lemma_rfind_qq_props(t);
        assert(forall|j: int| 0 <= j < t.len() ==> t[j] == s[j]);
    }
}

/// Scans for the last `''` marker.
fn str_rfind_qq(s: &str) -> (r: Option<usize>)
    ensures
        match r {
            Some(i) => rfind_qq(s@) == i as int,
            None => rfind_qq(s@) == -1,
        },
{
    let n = s.unicode_len();
    if n < 2 {
        proof {
            lemma_rfind_qq_props(s@);
        }
        return None;
    }
    let mut i = n - 1;
    while i > 0
        invariant
            0 <= i <= n - 1,
            n == s@.len(),
            n >= 2,
            forall|j: int| i - 1 < j < n - 1 ==> !(#[trigger] s@[j] == '\'' && s@[j + 1] == '\''),
        decreases i,
    {
        if s.get_char(i - 1) == '\'' && s.get_char(i) == '\'' {
            proof {
                lemma_rfind_qq_props(s@);
            }
            return Some(i - 1);
        }
        i = i - 1;
    }
    proof {
        lemma_rfind_qq_props(s@);
    }
    None
}

/// What one trimmed `Content-Disposition` parameter contributes: the
/// unquoted name after `filename=`, or for `filename*=` the text after the
/// last `''` marker; empty names count for nothing.
pub open spec fn cd_part_filename_spec(part: Seq<char>) -> Option<Seq<char>> {
    if has_prefix(part, "filename="@) {
        let name = qtrim(part.subrange(9, part.len() as int));
        if name.len() > 0 {
            Some(name)
        } else {
            None
        }
    } else if has_prefix(part, "filename*="@) {
        let rest = part.subrange(10, part.len() as int);
        let j = rfind_qq(rest);
        if j >= 0 {
            let name = rest.subrange(j + 2, rest.len() as int);
            if name.len() > 0 {
                Some(name)
            } else {
                None
            }
        } else {
            None
        }
    } else {
        None
    }
}

fn cd_part_filename(part: &str) -> (r: Option<String>)
    ensures
        r.deep_view() == cd_part_filename_spec(part@),
{
    let n = part.unicode_len();
    if str_has_prefix(part, "filename=") {
        proof {
            reveal_strlit("filename=");
        }
        let name = qtrim_range(part, 9, n);
        if name.as_str().is_empty() {
            None
        } else {
            Some(name)
        }
    } else if str_has_prefix(part, "filename*=") {
        proof {
            reveal_strlit("filename*=");
        }
        let rest = part.substring_char(10, n);
        match str_rfind_qq(rest) {
            Some(j) => {
                proof {
                    lemma_rfind_qq_props(rest@);
                }
                let m = rest.unicode_len();
                let name = rest.substring_char(j + 2, m);
                if name.is_empty() {
                    None
                } else {
                    Some(name.to_owned())
                }
            },
            None => None,
        }
    } else {
        None
    }
}

/// The filename named by a `Content-Disposition` header value: the
/// parameters are read in order, split at `;` and trimmed, and the first
/// one that yields a non-empty name wins.
pub open spec fn cd_filename_spec(s: Seq<char>) -> Option<Seq<char>>
    decreases s.len(),
{
    let i = find_char(s, ';');
    if i < 0 || i >= s.len() {
        cd_part_filename_spec(trim_spec(s))
    } else {
        match cd_part_filename_spec(trim_spec(s.subrange(0, i))) {
            Some(name) => Some(name),
            None => cd_filename_spec(s.subrange(i + 1, s.len() as int)),
        }
    }
}

/// Extracts the download filename suggested by a `Content-Disposition`
/// header value.
pub fn filename_from_content_disposition(s: &str) -> (r: Option<String>)
    ensures
        r.deep_view() == cd_filename_spec(s@),
    decreases s@.len(),
{
    let n = s.unicode_len();
    match str_find_char(s, ';') {
        Some(i) => {
            proof {
                lemma_find_char_props(s@, ';');
            }
            let part = trim_range(s, 0, i);
            match cd_part_filename(part.as_str()) {
                Some(name) => Some(name),
                None => filename_from_content_disposition(s.substring_char(i + 1, n)),
            }
        },
        None => {
            let part = trim_range(s, 0, n);
            proof {
                assert(s@.subrange(0, n as int) =~= s@);
            }
            cd_part_filename(part.as_str())
        },
    }
}

/// The download filename policy: an explicit output path wins, then a name
/// taken from the response's `Content-Disposition` header, then the name
/// suggested by the URL.
pub open spec fn choose_filename_spec(
    output: Option<Seq<char>>,
    header_name: Option<Seq<char>>,
    url: Seq<char>,
) -> Seq<char> {
    match output {
        Some(o) => o,
        None => match header_name {
            Some(h) => h,
            None => url_filename_spec(url),
        },
    }
}

/// Decides the filename a download is saved under, from the explicit
/// output path, the name the response suggested, and the request URL.
pub fn determine_filename(
    output: &Option<String>,
    header_name: &Option<String>,
    url: &str,
) -> (r: String)
    ensures
        r@ == choose_filename_spec(output.deep_view(), header_name.deep_view(), url@),
{
    if let Some(o) = output {
        return o.clone();
    }
    if let Some(h) = header_name {
        return h.clone();
    }
    extract_filename_from_url(url)
}

} // verus!
