//! Request-item classification: the mini-language that turns one raw
//! `KEY<op>VALUE` token into a typed request item, plus the already-typed
//! argument structures the client works on.

use vstd::prelude::*;

use crate::auth::Auth;
use crate::text::{
    find_char, find_eq2, is_ws, lemma_find_char_props, lemma_find_eq2_props,
    lemma_trim_idempotent, lemma_trim_offsets, str_find_char, str_find_eq2, trim_range,
    trim_spec,
};

verus! {

/// One classified request item, derived from a single raw token.
#[derive(Debug, Clone, PartialEq, Eq)]
pub enum RequestItem {
    /// HTTP header: `Key:Value`
    Header(String, String),
    /// Query parameter: `key==value`
    QueryParam(String, String),
    /// JSON body field: `key=value`
    Body(String, String),
    /// File upload: `key@filepath`
    FormFile(String, String),
}

/// The mathematical model of a [`RequestItem`]: the same shape over
/// character sequences.
pub enum ItemModel {
    Header(Seq<char>, Seq<char>),
    QueryParam(Seq<char>, Seq<char>),
    Body(Seq<char>, Seq<char>),
    FormFile(Seq<char>, Seq<char>),
}

impl View for RequestItem {
    type V = ItemModel;

    open spec fn view(&self) -> ItemModel {
        match self {
            RequestItem::Header(k, v) => ItemModel::Header(k@, v@),
            RequestItem::QueryParam(k, v) => ItemModel::QueryParam(k@, v@),
            RequestItem::Body(k, v) => ItemModel::Body(k@, v@),
            RequestItem::FormFile(k, v) => ItemModel::FormFile(k@, v@),
        }
    }
}

impl DeepView for RequestItem {
    type V = ItemModel;

    open spec fn deep_view(&self) -> ItemModel {
        self.view()
    }
}

/// Why a raw token was rejected; each variant carries the offending token.
#[derive(Debug, Clone, PartialEq, Eq)]
pub enum ParseError {
    /// The key part trimmed to the empty string.
    EmptyKey(String),
    /// A file-upload item's path trimmed to the empty string.
    EmptyValue(String),
    /// The token matched none of the four item patterns.
    InvalidFormat(String),
}

/// The mathematical model of a [`ParseError`].
pub enum ParseErrorModel {
    EmptyKey(Seq<char>),
    EmptyValue(Seq<char>),
    InvalidFormat(Seq<char>),
}

impl View for ParseError {
    type V = ParseErrorModel;

    open spec fn view(&self) -> ParseErrorModel {
        match self {
            ParseError::EmptyKey(t) => ParseErrorModel::EmptyKey(t@),
            ParseError::EmptyValue(t) => ParseErrorModel::EmptyValue(t@),
            ParseError::InvalidFormat(t) => ParseErrorModel::InvalidFormat(t@),
        }
    }
}

impl ParseError {
    /// The user-facing description of the rejection, naming the raw token.
    pub fn message(&self) -> (r: String)
        ensures
            match self@ {
                ParseErrorModel::EmptyKey(t) => r@ == "Item key cannot be empty: "@ + t,
                ParseErrorModel::EmptyValue(t) => r@ == "File path cannot be empty: "@ + t,
                ParseErrorModel::InvalidFormat(t) => r@ == "Invalid format: '"@ + t
                    + "'. Expected 'Header:Value', 'key@file', 'key==value', or 'key=value'"@,
            },
    {
        match self {
            ParseError::EmptyKey(t) => {
                let mut r = "Item key cannot be empty: ".to_owned();
                r.append(t.as_str());
                r
            },
            ParseError::EmptyValue(t) => {
                let mut r = "File path cannot be empty: ".to_owned();
                r.append(t.as_str());
                r
            },
            ParseError::InvalidFormat(t) => {
                let mut r = "Invalid format: '".to_owned();
                r.append(t.as_str());
                r.append("'. Expected 'Header:Value', 'key@file', 'key==value', or 'key=value'");
                r
            },
        }
    }
}

/// The classification policy for one raw token, in this exact precedence
/// order: file upload, header, query parameter, body field.
///
/// The file-upload rule fires only when the text before the first `@`
/// contains neither `=` nor `:`, so values that merely contain `@` (an email
/// address after `=`) fall through to the later rules.
pub open spec fn classify_spec(s: Seq<char>) -> Result<ItemModel, ParseErrorModel> {
    let at = find_char(s, '@');
    if at >= 0 && find_char(s.subrange(0, at), '=') == -1 && find_char(s.subrange(0, at), ':')
        == -1 {
        let key = trim_spec(s.subrange(0, at));
        let filepath = trim_spec(s.subrange(at + 1, s.len() as int));
        if key.len() == 0 {
            Err(ParseErrorModel::EmptyKey(s))
        } else if filepath.len() == 0 {
            Err(ParseErrorModel::EmptyValue(s))
        } else {
            Ok(ItemModel::FormFile(key, filepath))
        }
    } else {
        let colon = find_char(s, ':');
        if colon >= 0 {
            let key = trim_spec(s.subrange(0, colon));
            let value = trim_spec(s.subrange(colon + 1, s.len() as int));
            if key.len() == 0 {
                Err(ParseErrorModel::EmptyKey(s))
            } else {
                Ok(ItemModel::Header(key, value))
            }
        } else {
            let e2 = find_eq2(s);
            if e2 >= 0 {
                let key = trim_spec(s.subrange(0, e2));
                let value = trim_spec(s.subrange(e2 + 2, s.len() as int));
                if key.len() == 0 {
                    Err(ParseErrorModel::EmptyKey(s))
                } else {
                    Ok(ItemModel::QueryParam(key, value))
                }
            } else {
                let e1 = find_char(s, '=');
                if e1 >= 0 {
                    let key = trim_spec(s.subrange(0, e1));
                    let value = trim_spec(s.subrange(e1 + 1, s.len() as int));
                    if key.len() == 0 {
                        Err(ParseErrorModel::EmptyKey(s))
                    } else {
                        Ok(ItemModel::Body(key, value))
                    }
                } else {
                    Err(ParseErrorModel::InvalidFormat(s))
                }
            }
        }
    }
}

/// A token whose text before the first `@` is non-empty and free of `:`
/// and `=`, with something after the `@`, classifies as a file upload:
/// key and path are the trimmed texts before and after that `@` (provided
/// neither trims away entirely; a token like `" @x"` trims to an empty key
/// and is rejected instead).
pub proof fn lemma_classify_form_file(s: Seq<char>)
    requires
        find_char(s, '@') >= 1,
        forall|j: int| 0 <= j < find_char(s, '@') ==> s[j] != ':' && s[j] != '=',
        find_char(s, '@') + 1 < s.len(),
        trim_spec(s.subrange(0, find_char(s, '@'))).len() > 0,
        trim_spec(s.subrange(find_char(s, '@') + 1, s.len() as int)).len() > 0,
    ensures
        classify_spec(s) == Ok::<ItemModel, ParseErrorModel>(ItemModel::FormFile(
            trim_spec(s.subrange(0, find_char(s, '@'))),
            trim_spec(s.subrange(find_char(s, '@') + 1, s.len() as int)),
        )),
{
    let at = find_char(s, '@');
    let pre = s.subrange(0, at);
    lemma_find_char_props(s, '@');
    lemma_find_char_props(pre, '=');
    lemma_find_char_props(pre, ':');
    assert(find_char(pre, '=') == -1) by {
        if find_char(pre, '=') != -1 {
            assert(pre[find_char(pre, '=')] == '=');
            assert(s[find_char(pre, '=')] == '=');
        }
    }
    assert(find_char(pre, ':') == -1) by {
        if find_char(pre, ':') != -1 {
            assert(pre[find_char(pre, ':')] == ':');
            assert(s[find_char(pre, ':')] == ':');
        }
    }
}

/// A token whose first `:` comes before any `=` and before any `@`
/// classifies as a header, split at that first colon; the value keeps any
/// further colons (provided the key does not trim away entirely).
pub proof fn lemma_classify_header(s: Seq<char>)
    requires
        find_char(s, ':') >= 0,
        find_char(s, '=') == -1 || find_char(s, ':') < find_char(s, '='),
        find_char(s, '@') == -1 || find_char(s, ':') < find_char(s, '@'),
        trim_spec(s.subrange(0, find_char(s, ':'))).len() > 0,
    ensures
        classify_spec(s) == Ok::<ItemModel, ParseErrorModel>(ItemModel::Header(
            trim_spec(s.subrange(0, find_char(s, ':'))),
            trim_spec(s.subrange(find_char(s, ':') + 1, s.len() as int)),
        )),
{
    let c = find_char(s, ':');
    lemma_find_char_props(s, ':');
    let at = find_char(s, '@');
    if at >= 0 {
        lemma_find_char_props(s, '@');
        let pre = s.subrange(0, at);
        lemma_find_char_props(pre, ':');
        assert(pre[c] == ':');
        assert(find_char(pre, ':') != -1);
    }
}

/// A token holding `==` but no `:` classifies as a query parameter, split
/// at the first `==`; the value keeps any further `==` (provided the key
/// does not trim away entirely, and any `@` comes after some `=`, else the
/// file-upload rule would take the token first).
pub proof fn lemma_classify_query_param(s: Seq<char>)
    requires
        find_eq2(s) >= 0,
        find_char(s, ':') == -1,
        find_char(s, '@') == -1 || find_char(s, '=') < find_char(s, '@'),
        trim_spec(s.subrange(0, find_eq2(s))).len() > 0,
    ensures
        classify_spec(s) == Ok::<ItemModel, ParseErrorModel>(ItemModel::QueryParam(
            trim_spec(s.subrange(0, find_eq2(s))),
            trim_spec(s.subrange(find_eq2(s) + 2, s.len() as int)),
        )),
{
    lemma_find_eq2_props(s);
    lemma_find_char_props(s, '=');
    lemma_find_char_props(s, ':');
    let e1 = find_char(s, '=');
    assert(e1 != -1) by {
        assert(s[find_eq2(s)] == '=');
    }
    let at = find_char(s, '@');
    if at >= 0 {
        lemma_find_char_props(s, '@');
        let pre = s.subrange(0, at);
        lemma_find_char_props(pre, '=');
        assert(pre[e1] == '=');
        assert(find_char(pre, '=') != -1);
    }
}

/// A token holding a single `=` (so no `==`) and no `:` classifies as a
/// body field, split at that first `=` (provided the key does not trim
/// away entirely, and any `@` comes after the `=`).
pub proof fn lemma_classify_body(s: Seq<char>)
    requires
        find_char(s, '=') >= 0,
        find_eq2(s) == -1,
        find_char(s, ':') == -1,
        find_char(s, '@') == -1 || find_char(s, '=') < find_char(s, '@'),
        trim_spec(s.subrange(0, find_char(s, '='))).len() > 0,
    ensures
        classify_spec(s) == Ok::<ItemModel, ParseErrorModel>(ItemModel::Body(
            trim_spec(s.subrange(0, find_char(s, '='))),
            trim_spec(s.subrange(find_char(s, '=') + 1, s.len() as int)),
        )),
{
    lemma_find_char_props(s, '=');
    lemma_find_char_props(s, ':');
    let e1 = find_char(s, '=');
    let at = find_char(s, '@');
    if at >= 0 {
        lemma_find_char_props(s, '@');
        let pre = s.subrange(0, at);
        lemma_find_char_props(pre, '=');
        assert(pre[e1] == '=');
        assert(find_char(pre, '=') != -1);
    }
}

/// The serialized form of a classified item: key, operator, value.
pub open spec fn item_token(m: ItemModel) -> Seq<char> {
    match m {
        ItemModel::Header(k, v) => k + seq![':'] + v,
        ItemModel::QueryParam(k, v) => k + seq!['=', '='] + v,
        ItemModel::Body(k, v) => k + seq!['='] + v,
        ItemModel::FormFile(k, p) => k + seq!['@'] + p,
    }
}

/// When classification of `s` passed over the file-upload rule, there was
/// no `:` before position `op`, and the key trimmed out of `s[..op]` has
/// its first `@` at `a`, that key holds an `=` before `a` (that is what
/// made the file-upload rule pass the token over).
proof fn lemma_key_has_eq_before_at(s: Seq<char>, op: int, a: int)
    requires
        0 <= op <= s.len(),
        ({
            let at = find_char(s, '@');
            !(at >= 0 && find_char(s.subrange(0, at), '=') == -1 && find_char(
                s.subrange(0, at),
                ':',
            ) == -1)
        }),
        forall|j: int| 0 <= j < op ==> s[j] != ':',
        0 <= a < trim_spec(s.subrange(0, op)).len(),
        trim_spec(s.subrange(0, op))[a] == '@',
        forall|p: int| 0 <= p < a ==> trim_spec(s.subrange(0, op))[p] != '@',
    ensures
        exists|p: int| 0 <= p < a && trim_spec(s.subrange(0, op))[p] == '=',
{
    let pre = s.subrange(0, op);
    let k = trim_spec(pre);
    let x = lemma_trim_offsets(pre);
    assert forall|j: int| 0 <= j < k.len() implies k[j] == s[x + j] by {
        assert(k[j] == pre[x + j]);
    }
    assert(s[x + a] == '@');
    assert(!is_ws('@'));
    assert(!is_ws('='));
    assert forall|j: int| 0 <= j < x + a implies s[j] != '@' by {
        if j < x {
            assert(is_ws(pre[j]));
            assert(pre[j] == s[j]);
        } else {
            assert(k[j - x] != '@');
        }
    }
    lemma_find_char_props(s, '@');
    let at = find_char(s, '@');
    assert(at == x + a);
    let pre_at = s.subrange(0, at);
    lemma_find_char_props(pre_at, '=');
    lemma_find_char_props(pre_at, ':');
    if find_char(pre_at, ':') != -1 {
        let q = find_char(pre_at, ':');
        assert(pre_at[q] == ':');
        assert(s[q] == ':');
        assert(false);
    }
    let q = find_char(pre_at, '=');
    assert(q != -1);
    assert(pre_at[q] == '=');
    assert(s[q] == '=');
    assert(q >= x) by {
        if q < x {
            assert(is_ws(pre[q]));
            assert(pre[q] == s[q]);
        }
    }
    assert(k[q - x] == '=');
}

proof fn lemma_round_trip_header(s: Seq<char>, k: Seq<char>, v: Seq<char>)
    requires
        classify_spec(s) == Ok::<ItemModel, ParseErrorModel>(ItemModel::Header(k, v)),
    ensures
        classify_spec(k + seq![':'] + v) == Ok::<ItemModel, ParseErrorModel>(
            ItemModel::Header(k, v),
        ),
{
    let at0 = find_char(s, '@');
    assert(!(at0 >= 0 && find_char(s.subrange(0, at0), '=') == -1 && find_char(
        s.subrange(0, at0),
        ':',
    ) == -1));
    let c = find_char(s, ':');
    assert(c >= 0);
    let n = s.len() as int;
    assert(k == trim_spec(s.subrange(0, c)));
    assert(v == trim_spec(s.subrange(c + 1, n)));
    assert(k.len() > 0);
    lemma_find_char_props(s, ':');
    let pre = s.subrange(0, c);
    let x = lemma_trim_offsets(pre);
    lemma_trim_idempotent(pre);
    lemma_trim_idempotent(s.subrange(c + 1, n));
    assert forall|j: int| 0 <= j < k.len() implies k[j] == s[x + j] by {
        assert(k[j] == pre[x + j]);
    }
    assert forall|j: int| 0 <= j < k.len() implies k[j] != ':' by {
        assert(k[j] == s[x + j]);
    }
    let t = k + seq![':'] + v;
    assert(t.len() == k.len() + 1 + v.len());
    assert(forall|j: int| 0 <= j < k.len() ==> t[j] == k[j]);
    assert(t[k.len() as int] == ':');
    assert(forall|j: int| k.len() + 1 <= j < t.len() ==> t[j] == v[j - k.len() - 1]);
    let at_t = find_char(t, '@');
    lemma_find_char_props(t, '@');
    if at_t >= 0 {
        if at_t < k.len() {
            assert(k[at_t] == '@');
            assert forall|p: int| 0 <= p < at_t implies k[p] != '@' by {
                assert(t[p] == k[p]);
            }
            lemma_key_has_eq_before_at(s, c, at_t);
            let p = choose|p: int| 0 <= p < at_t && k[p] == '=';
            let pre_t = t.subrange(0, at_t);
            lemma_find_char_props(pre_t, '=');
            assert(pre_t[p] == '=');
            assert(find_char(pre_t, '=') != -1);
        } else if at_t == k.len() {
            assert(false);
        } else {
            let pre_t = t.subrange(0, at_t);
            lemma_find_char_props(pre_t, ':');
            assert(pre_t[k.len() as int] == ':');
            assert(find_char(pre_t, ':') != -1);
        }
    }
    lemma_find_char_props(t, ':');
    assert(find_char(t, ':') == k.len());
    assert(t.subrange(0, k.len() as int) =~= k);
    assert(t.subrange(k.len() + 1 as int, t.len() as int) =~= v);
}

proof fn lemma_round_trip_query(s: Seq<char>, k: Seq<char>, v: Seq<char>)
    requires
        classify_spec(s) == Ok::<ItemModel, ParseErrorModel>(ItemModel::QueryParam(k, v)),
        k.len() > 0 ==> k[k.len() - 1] != '=',
    ensures
        classify_spec(k + seq!['=', '='] + v) == Ok::<ItemModel, ParseErrorModel>(
            ItemModel::QueryParam(k, v),
        ),
{
    let at0 = find_char(s, '@');
    assert(!(at0 >= 0 && find_char(s.subrange(0, at0), '=') == -1 && find_char(
        s.subrange(0, at0),
        ':',
    ) == -1));
    if find_char(s, ':') >= 0 {
        assert(classify_spec(s) matches Ok(m) ==> m is Header);
        assert(classify_spec(s) matches Ok(m) ==> !(m is Header));
        assert(false);
    }
    lemma_find_char_props(s, ':');
    let e2 = find_eq2(s);
    assert(e2 >= 0);
    lemma_find_eq2_props(s);
    let n = s.len() as int;
    assert(k == trim_spec(s.subrange(0, e2)));
    assert(v == trim_spec(s.subrange(e2 + 2, n)));
    assert(k.len() > 0);
    let pre = s.subrange(0, e2);
    let x = lemma_trim_offsets(pre);
    lemma_trim_idempotent(pre);
    lemma_trim_idempotent(s.subrange(e2 + 2, n));
    let y = lemma_trim_offsets(s.subrange(e2 + 2, n));
    assert forall|j: int| 0 <= j < k.len() implies k[j] == s[x + j] by {
        assert(k[j] == pre[x + j]);
    }
    assert forall|j: int| 0 <= j < v.len() implies v[j] == s[e2 + 2 + y + j] by {
        assert(v[j] == s.subrange(e2 + 2, n)[y + j]);
    }
    assert forall|j: int| 0 <= j < k.len() implies k[j] != ':' by {
        assert(k[j] == s[x + j]);
    }
    assert forall|j: int| 0 <= j < v.len() implies v[j] != ':' by {
        assert(v[j] == s[e2 + 2 + y + j]);
    }
    assert forall|j: int| 0 <= j < k.len() - 1 implies !(#[trigger] k[j] == '=' && k[j + 1]
        == '=') by {
        assert(k[j] == s[x + j]);
        assert(k[j + 1] == s[x + j + 1]);
    }
    let t = k + seq!['=', '='] + v;
    assert(t.len() == k.len() + 2 + v.len());
    assert(forall|j: int| 0 <= j < k.len() ==> t[j] == k[j]);
    assert(t[k.len() as int] == '=');
    assert(t[k.len() + 1 as int] == '=');
    assert(forall|j: int| k.len() + 2 <= j < t.len() ==> t[j] == v[j - k.len() - 2]);
    let at_t = find_char(t, '@');
    lemma_find_char_props(t, '@');
    if at_t >= 0 {
        if at_t < k.len() {
            assert(k[at_t] == '@');
            assert forall|p: int| 0 <= p < at_t implies k[p] != '@' by {
                assert(t[p] == k[p]);
            }
            lemma_key_has_eq_before_at(s, e2, at_t);
            let p = choose|p: int| 0 <= p < at_t && k[p] == '=';
            let pre_t = t.subrange(0, at_t);
            lemma_find_char_props(pre_t, '=');
            assert(pre_t[p] == '=');
            assert(find_char(pre_t, '=') != -1);
        } else if at_t == k.len() || at_t == k.len() + 1 {
            assert(false);
        } else {
            let pre_t = t.subrange(0, at_t);
            lemma_find_char_props(pre_t, '=');
            assert(pre_t[k.len() as int] == '=');
            assert(find_char(pre_t, '=') != -1);
        }
    }
    lemma_find_char_props(t, ':');
    assert forall|j: int| 0 <= j < t.len() implies t[j] != ':' by {
        if j < k.len() {
            assert(t[j] == k[j]);
        } else if j >= k.len() + 2 {
            assert(t[j] == v[j - k.len() - 2]);
        }
    }
    assert(find_char(t, ':') == -1);
    lemma_find_eq2_props(t);
    assert forall|j: int| 0 <= j < k.len() implies !(#[trigger] t[j] == '=' && t[j + 1]
        == '=') by {
        if j < k.len() - 1 {
            assert(t[j] == k[j]);
            assert(t[j + 1] == k[j + 1]);
        } else {
            assert(t[j] == k[k.len() - 1]);
        }
    }
    assert(find_eq2(t) == k.len());
    assert(t.subrange(0, k.len() as int) =~= k);
    assert(t.subrange(k.len() + 2 as int, t.len() as int) =~= v);
}

proof fn lemma_round_trip_body(s: Seq<char>, k: Seq<char>, v: Seq<char>)
    requires
        classify_spec(s) == Ok::<ItemModel, ParseErrorModel>(ItemModel::Body(k, v)),
        v.len() > 0 ==> v[0] != '=',
    ensures
        classify_spec(k + seq!['='] + v) == Ok::<ItemModel, ParseErrorModel>(
            ItemModel::Body(k, v),
        ),
{
    let at0 = find_char(s, '@');
    assert(!(at0 >= 0 && find_char(s.subrange(0, at0), '=') == -1 && find_char(
        s.subrange(0, at0),
        ':',
    ) == -1));
    if find_char(s, ':') >= 0 {
        assert(classify_spec(s) matches Ok(m) ==> m is Header);
        assert(classify_spec(s) matches Ok(m) ==> !(m is Header));
        assert(false);
    }
    lemma_find_char_props(s, ':');
    if find_eq2(s) >= 0 {
        assert(classify_spec(s) matches Ok(m) ==> m is QueryParam);
        assert(classify_spec(s) matches Ok(m) ==> !(m is QueryParam));
        assert(false);
    }
    lemma_find_eq2_props(s);
    let e1 = find_char(s, '=');
    assert(e1 >= 0);
    lemma_find_char_props(s, '=');
    let n = s.len() as int;
    assert(k == trim_spec(s.subrange(0, e1)));
    assert(v == trim_spec(s.subrange(e1 + 1, n)));
    assert(k.len() > 0);
    let pre = s.subrange(0, e1);
    let x = lemma_trim_offsets(pre);
    lemma_trim_idempotent(pre);
    lemma_trim_idempotent(s.subrange(e1 + 1, n));
    let y = lemma_trim_offsets(s.subrange(e1 + 1, n));
    assert forall|j: int| 0 <= j < k.len() implies k[j] == s[x + j] by {
        assert(k[j] == pre[x + j]);
    }
    assert forall|j: int| 0 <= j < v.len() implies v[j] == s[e1 + 1 + y + j] by {
        assert(v[j] == s.subrange(e1 + 1, n)[y + j]);
    }
    assert forall|j: int| 0 <= j < k.len() implies k[j] != ':' && k[j] != '=' by {
        assert(k[j] == s[x + j]);
    }
    assert forall|j: int| 0 <= j < v.len() implies v[j] != ':' by {
        assert(v[j] == s[e1 + 1 + y + j]);
    }
    assert forall|j: int| 0 <= j < v.len() - 1 implies !(#[trigger] v[j] == '=' && v[j + 1]
        == '=') by {
        assert(v[j] == s[e1 + 1 + y + j]);
        assert(v[j + 1] == s[e1 + 1 + y + j + 1]);
    }
    // the key holds no '@' at all: its first '@' would have needed an '='
    // or ':' before it inside the key, and the key has neither
    assert forall|j: int| 0 <= j < k.len() implies k[j] != '@' by {
        if k[j] == '@' {
            lemma_find_char_props(k, '@');
            let a = find_char(k, '@');
            assert(a != -1);
            assert(k[a] == '@');
            lemma_key_has_eq_before_at(s, e1, a);
            let p = choose|p: int| 0 <= p < a && k[p] == '=';
            assert(false);
        }
    }
    let t = k + seq!['='] + v;
    assert(t.len() == k.len() + 1 + v.len());
    assert(forall|j: int| 0 <= j < k.len() ==> t[j] == k[j]);
    assert(t[k.len() as int] == '=');
    assert(forall|j: int| k.len() + 1 <= j < t.len() ==> t[j] == v[j - k.len() - 1]);
    let at_t = find_char(t, '@');
    lemma_find_char_props(t, '@');
    if at_t >= 0 {
        assert(at_t > k.len());
        let pre_t = t.subrange(0, at_t);
        lemma_find_char_props(pre_t, '=');
        assert(pre_t[k.len() as int] == '=');
        assert(find_char(pre_t, '=') != -1);
    }
    lemma_find_char_props(t, ':');
    assert forall|j: int| 0 <= j < t.len() implies t[j] != ':' by {
        if j < k.len() {
            assert(t[j] == k[j]);
        } else if j >= k.len() + 1 {
            assert(t[j] == v[j - k.len() - 1]);
        }
    }
    assert(find_char(t, ':') == -1);
    lemma_find_eq2_props(t);
    assert forall|j: int| 0 <= j < t.len() - 1 implies !(#[trigger] t[j] == '=' && t[j + 1]
        == '=') by {
        if j < k.len() {
            assert(t[j] == k[j]);
        } else if j == k.len() {
            if v.len() > 0 {
                assert(t[j + 1] == v[0]);
            }
        } else {
            assert(t[j] == v[j - k.len() - 1]);
            assert(t[j + 1] == v[j - k.len()]);
        }
    }
    assert(find_eq2(t) == -1);
    lemma_find_char_props(t, '=');
    assert(find_char(t, '=') == k.len());
    assert(t.subrange(0, k.len() as int) =~= k);
    assert(t.subrange(k.len() + 1 as int, t.len() as int) =~= v);
}

/// Reclassifying the serialized form of a classified header, query
/// parameter or body item yields that item back. The two stated exceptions
/// come from whitespace trimmed around an operator: a query key that ends
/// in `=` (classified out of a token like `a= ==b`) and a body value that
/// starts with `=` (out of a token like `a= =b`) change their reading when
/// serialized without that whitespace.
pub proof fn lemma_classify_round_trip(s: Seq<char>, item: ItemModel)
    requires
        classify_spec(s) == Ok::<ItemModel, ParseErrorModel>(item),
        !(item is FormFile),
        item matches ItemModel::QueryParam(k, _v) ==> (k.len() == 0 || k[k.len() - 1] != '='),
        item matches ItemModel::Body(_k, v) ==> (v.len() == 0 || v[0] != '='),
    ensures
        classify_spec(item_token(item)) == Ok::<ItemModel, ParseErrorModel>(item),
{
    match item {
        ItemModel::Header(k, v) => lemma_round_trip_header(s, k, v),
        ItemModel::QueryParam(k, v) => lemma_round_trip_query(s, k, v),
        ItemModel::Body(k, v) => lemma_round_trip_body(s, k, v),
        ItemModel::FormFile(_, _) => {
            assert(false);
        },
    }
}

/// Classifies one raw token into a typed request item.
pub fn parse_request_item(s: &str) -> (r: Result<RequestItem, ParseError>)
    ensures
        match r {
            Ok(item) => classify_spec(s@) == Ok::<ItemModel, ParseErrorModel>(item@),
            Err(e) => classify_spec(s@) == Err::<ItemModel, ParseErrorModel>(e@),
        },
{
    let n = s.unicode_len();
    if let Some(at) = str_find_char(s, '@') {
        proof {
            lemma_find_char_props(s@, '@');
        }
        let prefix = s.substring_char(0, at);
        if str_find_char(prefix, '=').is_none() && str_find_char(prefix, ':').is_none() {
            let key = trim_range(s, 0, at);
            let filepath = trim_range(s, at + 1, n);
            if key.as_str().is_empty() {
                return Err(ParseError::EmptyKey(s.to_owned()));
            }
            if filepath.as_str().is_empty() {
                return Err(ParseError::EmptyValue(s.to_owned()));
            }
            return Ok(RequestItem::FormFile(key, filepath));
        }
    }
    if let Some(pos) = str_find_char(s, ':') {
        proof {
            lemma_find_char_props(s@, ':');
        }
        let key = trim_range(s, 0, pos);
        let value = trim_range(s, pos + 1, n);
        if key.as_str().is_empty() {
            return Err(ParseError::EmptyKey(s.to_owned()));
        }
        return Ok(RequestItem::Header(key, value));
    }
    if let Some(pos) = str_find_eq2(s) {
        proof {
            lemma_find_eq2_props(s@);
        }
        let key = trim_range(s, 0, pos);
        let value = trim_range(s, pos + 2, n);
        if key.as_str().is_empty() {
            return Err(ParseError::EmptyKey(s.to_owned()));
        }
        return Ok(RequestItem::QueryParam(key, value));
    }
    if let Some(pos) = str_find_char(s, '=') {
        proof {
            lemma_find_char_props(s@, '=');
        }
        let key = trim_range(s, 0, pos);
        let value = trim_range(s, pos + 1, n);
        if key.as_str().is_empty() {
            return Err(ParseError::EmptyKey(s.to_owned()));
        }
        return Ok(RequestItem::Body(key, value));
    }
    Err(ParseError::InvalidFormat(s.to_owned()))
}

impl core::str::FromStr for RequestItem {
    type Err = ParseError;

    fn from_str(s: &str) -> Result<RequestItem, ParseError> {
        parse_request_item(s)
    }
}

/// An HTTP request method.
#[derive(Debug, Clone, Copy, PartialEq, Eq, Structural)]
pub enum Method {
    Get,
    Post,
    Put,
    Patch,
    Delete,
    Head,
    Options,
}

impl Method {
    /// The request-line name of the method.
    pub open spec fn name_spec(self) -> Seq<char> {
        match self {
            Method::Get => "GET"@,
            Method::Post => "POST"@,
            Method::Put => "PUT"@,
            Method::Patch => "PATCH"@,
            Method::Delete => "DELETE"@,
            Method::Head => "HEAD"@,
            Method::Options => "OPTIONS"@,
        }
    }

    pub fn name(&self) -> (r: String)
        ensures
            r@ == self.name_spec(),
    {
        match self {
            Method::Get => "GET".to_owned(),
            Method::Post => "POST".to_owned(),
            Method::Put => "PUT".to_owned(),
            Method::Patch => "PATCH".to_owned(),
            Method::Delete => "DELETE".to_owned(),
            Method::Head => "HEAD".to_owned(),
            Method::Options => "OPTIONS".to_owned(),
        }
    }

    /// Whether body fields are dropped for this method: GET, HEAD and
    /// OPTIONS requests carry no request body.
    pub open spec fn drops_body_spec(self) -> bool {
        self == Method::Get || self == Method::Head || self == Method::Options
    }

    pub fn drops_body(&self) -> (r: bool)
        ensures
            r == self.drops_body_spec(),
    {
        match self {
            Method::Get => true,
            Method::Head => true,
            Method::Options => true,
            _ => false,
        }
    }
}

/// Which parts of the response are printed.
#[derive(Debug, Clone, PartialEq, Eq, Structural)]
pub enum OutputFilter {
    All,
    HeadersOnly,
    BodyOnly,
}

/// The already-typed arguments of one request invocation.
#[derive(Debug, Clone)]
pub struct RequestArgs {
    /// Target URL.
    pub url: String,
    /// Request items, in command-line order.
    pub items: Vec<RequestItem>,
    /// Optional credentials.
    pub auth: Option<Auth>,
    /// Verbose mode: echo request details.
    pub verbose: bool,
    /// Request timeout in seconds.
    pub timeout: u64,
    /// Follow redirects.
    pub follow_redirects: bool,
    /// Maximum number of redirects.
    pub max_redirects: usize,
    /// Print only response headers.
    pub headers_only: bool,
    /// Print only the response body.
    pub body_only: bool,
    /// Download mode: save the response body to a file.
    pub download: bool,
    /// Output file path.
    pub output: Option<String>,
}

impl RequestArgs {
    /// The output filter the flags select.
    pub open spec fn output_filter_spec(&self) -> OutputFilter {
        if self.headers_only {
            OutputFilter::HeadersOnly
        } else if self.body_only {
            OutputFilter::BodyOnly
        } else {
            OutputFilter::All
        }
    }

    pub fn output_filter(&self) -> (r: OutputFilter)
        ensures
            r == self.output_filter_spec(),
    {
        if self.headers_only {
            OutputFilter::HeadersOnly
        } else if self.body_only {
            OutputFilter::BodyOnly
        } else {
            OutputFilter::All
        }
    }
}

/// One subcommand: the method together with its arguments.
#[derive(Debug, Clone)]
pub enum Command {
    Get(RequestArgs),
    Post(RequestArgs),
    Put(RequestArgs),
    Patch(RequestArgs),
    Delete(RequestArgs),
    Head(RequestArgs),
    Options(RequestArgs),
}

impl Command {
    pub open spec fn method_spec(&self) -> Method {
        match self {
            Command::Get(_) => Method::Get,
            Command::Post(_) => Method::Post,
            Command::Put(_) => Method::Put,
            Command::Patch(_) => Method::Patch,
            Command::Delete(_) => Method::Delete,
            Command::Head(_) => Method::Head,
            Command::Options(_) => Method::Options,
        }
    }

    pub fn method(&self) -> (r: Method)
        ensures
            r == self.method_spec(),
    {
        match self {
            Command::Get(_) => Method::Get,
            Command::Post(_) => Method::Post,
            Command::Put(_) => Method::Put,
            Command::Patch(_) => Method::Patch,
            Command::Delete(_) => Method::Delete,
            Command::Head(_) => Method::Head,
            Command::Options(_) => Method::Options,
        }
    }

    pub open spec fn args_spec(&self) -> RequestArgs {
        match self {
            Command::Get(args) => *args,
            Command::Post(args) => *args,
            Command::Put(args) => *args,
            Command::Patch(args) => *args,
            Command::Delete(args) => *args,
            Command::Head(args) => *args,
            Command::Options(args) => *args,
        }
    }

    pub fn args(&self) -> (r: &RequestArgs)
        ensures
            *r == self.args_spec(),
    {
        match self {
            Command::Get(args) => args,
            Command::Post(args) => args,
            Command::Put(args) => args,
            Command::Patch(args) => args,
            Command::Delete(args) => args,
            Command::Head(args) => args,
            Command::Options(args) => args,
        }
    }
}

/// The whole command line: one subcommand.
#[derive(Debug, Clone)]
pub struct Cli {
    pub command: Command,
}

} // verus!
