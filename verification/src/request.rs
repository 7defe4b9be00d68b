//! Request assembly: body-type detection, the transport-ready request
//! descriptor built from an ordered item list, and the verbose echo that is
//! collected alongside it.

use vstd::prelude::*;

use crate::auth::{Auth, AuthModel, auth_header_value, auth_header_value_spec};
use crate::cli::{ItemModel, Method, RequestItem};
use crate::json::{json_object, json_object_string, json_pretty, json_pretty_of};
use crate::text::{eq_ignore_case, last_segment, push_char, split_lines, split_lines_spec,
    str_eq_ignore_case, str_last_segment};
use crate::urlparts::{parse_url_parts, url_host_of, url_parse_ok, url_path_of, url_query_of};

verus! {

/// The content-encoding strategy chosen for the outgoing request body.
#[derive(Debug, Clone, Copy, PartialEq, Eq, Structural)]
pub enum BodyType {
    Json,
    Multipart,
}

pub open spec fn is_file_item(m: ItemModel) -> bool {
    m is FormFile
}

pub open spec fn is_body_item(m: ItemModel) -> bool {
    m is Body
}

pub open spec fn has_file_spec(items: Seq<ItemModel>) -> bool {
    exists|j: int| 0 <= j < items.len() && is_file_item(#[trigger] items[j])
}

pub open spec fn has_body_spec(items: Seq<ItemModel>) -> bool {
    exists|j: int| 0 <= j < items.len() && is_body_item(#[trigger] items[j])
}

/// The detection policy: any file item forces a multipart body, else any
/// body item selects JSON, else there is no body.
pub open spec fn detect_spec(items: Seq<ItemModel>) -> Option<BodyType> {
    if has_file_spec(items) {
        Some(BodyType::Multipart)
    } else if has_body_spec(items) {
        Some(BodyType::Json)
    } else {
        None
    }
}

/// Decides the request's content-encoding strategy from the full item list.
/// The result is `Some(Multipart)` exactly when a file item is present
/// (regardless of accompanying body items), `Some(Json)` exactly when body
/// items but no file items are present, and `None` otherwise.
pub fn detect_body_type(items: &[RequestItem]) -> (r: Option<BodyType>)
    ensures
        r == detect_spec(items.deep_view()),
{
    let ghost m = items.deep_view();
    let n = items.len();
    let mut has_file = false;
    let mut has_body = false;
    let mut i: usize = 0;
    while i < n
        invariant
            0 <= i <= n,
            n == m.len(),
            m == items.deep_view(),
            has_file == exists|j: int| 0 <= j < i && is_file_item(#[trigger] m[j]),
            has_body == exists|j: int| 0 <= j < i && is_body_item(#[trigger] m[j]),
        decreases n - i,
    {
        match &items[i] {
            RequestItem::FormFile(_, _) => {
                proof {
                    assert(is_file_item(m[i as int]));
                }
                has_file = true;
            },
            RequestItem::Body(_, _) => {
                proof {
                    assert(is_body_item(m[i as int]));
                }
                has_body = true;
            },
            _ => {},
        }
        i = i + 1;
    }
    if has_file {
        Some(BodyType::Multipart)
    } else if has_body {
        Some(BodyType::Json)
    } else {
        None
    }
}

/// The human-readable echo of a request, accumulated while it is assembled.
#[derive(Debug)]
pub struct VerboseInfo {
    pub method: String,
    pub url: String,
    /// Headers in application order: the auth header first, then per-item
    /// headers, then any implicit content-type header.
    pub headers: Vec<(String, String)>,
    pub query_params: Vec<(String, String)>,
    /// The raw body string, when a JSON body was chosen.
    pub body: Option<String>,
    /// `(form key, file path)` pairs, in item order.
    pub files: Vec<(String, String)>,
}

/// The mathematical model of a [`VerboseInfo`].
#[verifier::ext_equal]
pub struct VerboseModel {
    pub method: Seq<char>,
    pub url: Seq<char>,
    pub headers: Seq<(Seq<char>, Seq<char>)>,
    pub query_params: Seq<(Seq<char>, Seq<char>)>,
    pub body: Option<Seq<char>>,
    pub files: Seq<(Seq<char>, Seq<char>)>,
}

impl View for VerboseInfo {
    type V = VerboseModel;

    open spec fn view(&self) -> VerboseModel {
        VerboseModel {
            method: self.method@,
            url: self.url@,
            headers: self.headers.deep_view(),
            query_params: self.query_params.deep_view(),
            body: self.body.deep_view(),
            files: self.files.deep_view(),
        }
    }
}

impl VerboseInfo {
    /// A fresh accumulator for one request: method and URL, nothing else.
    pub fn new(method: &str, url: &str) -> (r: VerboseInfo)
        ensures
            r@ == (VerboseModel {
                method: method@,
                url: url@,
                headers: Seq::empty(),
                query_params: Seq::empty(),
                body: None,
                files: Seq::empty(),
            }),
    {
        let r = VerboseInfo {
            method: method.to_owned(),
            url: url.to_owned(),
            headers: Vec::new(),
            query_params: Vec::new(),
            body: None,
            files: Vec::new(),
        };
        proof {
            assert(r.headers.deep_view() =~= Seq::<(Seq<char>, Seq<char>)>::empty());
            assert(r.query_params.deep_view() =~= Seq::<(Seq<char>, Seq<char>)>::empty());
            assert(r.files.deep_view() =~= Seq::<(Seq<char>, Seq<char>)>::empty());
        }
        r
    }

    /// Records one applied header, additively.
    pub fn add_header(&mut self, key: String, value: String)
        ensures
            final(self)@ == (VerboseModel {
                headers: old(self)@.headers.push((key@, value@)),
                ..old(self)@
            }),
    {
        self.headers.push((key, value));
        proof {
            assert(self.headers.deep_view() =~= old(self).headers.deep_view().push(
                (key@, value@),
            ));
            assert(self@ =~= (VerboseModel {
                headers: old(self)@.headers.push((key@, value@)),
                ..old(self)@
            }));
        }
    }

    /// Records one query pair, in order.
    pub fn add_query_param(&mut self, key: String, value: String)
        ensures
            final(self)@ == (VerboseModel {
                query_params: old(self)@.query_params.push((key@, value@)),
                ..old(self)@
            }),
    {
        self.query_params.push((key, value));
        proof {
            assert(self.query_params.deep_view() =~= old(self).query_params.deep_view().push(
                (key@, value@),
            ));
            assert(self@ =~= (VerboseModel {
                query_params: old(self)@.query_params.push((key@, value@)),
                ..old(self)@
            }));
        }
    }

    /// Records the raw body string.
    pub fn set_body(&mut self, body: String)
        ensures
            final(self)@ == (VerboseModel { body: Some(body@), ..old(self)@ }),
    {
        self.body = Some(body);
        proof {
            assert(self@ =~= (VerboseModel { body: self.body.deep_view(), ..old(self)@ }));
        }
    }

    /// Records one file item, in order.
    pub fn add_file(&mut self, key: String, filepath: String)
        ensures
            final(self)@ == (VerboseModel {
                files: old(self)@.files.push((key@, filepath@)),
                ..old(self)@
            }),
    {
        self.files.push((key, filepath));
        proof {
            assert(self.files.deep_view() =~= old(self).files.deep_view().push(
                (key@, filepath@),
            ));
            assert(self@ =~= (VerboseModel {
                files: old(self)@.files.push((key@, filepath@)),
                ..old(self)@
            }));
        }
    }
}

/// How a sensitive header value is rendered: values longer than 20
/// characters show the first 10, an ellipsis, and the last 5; shorter values
/// pass through unmasked.
pub open spec fn mask_spec(v: Seq<char>) -> Seq<char> {
    if v.len() > 20 {
        v.subrange(0, 10) + "..."@ + v.subrange(v.len() - 5, v.len() as int)
    } else {
        v
    }
}

/// Masks a sensitive header value for display.
pub fn mask_header_value(value: &str) -> (r: String)
    ensures
        r@ == mask_spec(value@),
{
    let n = value.unicode_len();
    if n > 20 {
        let mut r = value.substring_char(0, 10).to_owned();
        r.append("...");
        r.append(value.substring_char(n - 5, n));
        r
    } else {
        value.to_owned()
    }
}

/// One file part of a multipart body: the form key, the path it came from,
/// the display filename (the path's final segment), and the guessed MIME
/// type.
#[derive(Debug, Clone, PartialEq, Eq)]
pub struct FilePart {
    pub key: String,
    pub path: String,
    pub filename: String,
    pub mime: String,
}

/// The mathematical model of a [`FilePart`].
#[verifier::ext_equal]
pub struct FilePartModel {
    pub key: Seq<char>,
    pub path: Seq<char>,
    pub filename: Seq<char>,
    pub mime: Seq<char>,
}

impl View for FilePart {
    type V = FilePartModel;

    open spec fn view(&self) -> FilePartModel {
        FilePartModel { key: self.key@, path: self.path@, filename: self.filename@, mime: self.mime@ }
    }
}

impl DeepView for FilePart {
    type V = FilePartModel;

    open spec fn deep_view(&self) -> FilePartModel {
        self.view()
    }
}

/// The body payload of an assembled request: exactly one of absent, a JSON
/// object, or a multipart form.
#[derive(Debug, Clone, PartialEq, Eq)]
pub enum RequestBody {
    Empty,
    /// The JSON object members, in first-occurrence order.
    Json(Vec<(String, String)>),
    /// Text fields and file parts, each in item order.
    Multipart { texts: Vec<(String, String)>, files: Vec<FilePart> },
}

/// The mathematical model of a [`RequestBody`].
#[verifier::ext_equal]
pub enum BodyModel {
    Empty,
    Json(Seq<(Seq<char>, Seq<char>)>),
    Multipart { texts: Seq<(Seq<char>, Seq<char>)>, files: Seq<FilePartModel> },
}

impl View for RequestBody {
    type V = BodyModel;

    open spec fn view(&self) -> BodyModel {
        match self {
            RequestBody::Empty => BodyModel::Empty,
            RequestBody::Json(pairs) => BodyModel::Json(pairs.deep_view()),
            RequestBody::Multipart { texts, files } => BodyModel::Multipart {
                texts: texts.deep_view(),
                files: files.deep_view(),
            },
        }
    }
}

/// The transport-ready representation of a request: the collaborator that
/// sends it needs no further decision about body shape.
#[derive(Debug, Clone, PartialEq, Eq)]
pub struct RequestDescriptor {
    pub method: Method,
    pub url: String,
    /// Header pairs in application order; duplicate names are retained.
    pub headers: Vec<(String, String)>,
    /// Query pairs in item order; duplicates are retained.
    pub query: Vec<(String, String)>,
    pub body: RequestBody,
}

/// Everything one assembly run produces: the descriptor, the optional
/// verbose echo, and the non-fatal warnings.
#[derive(Debug)]
pub struct AssembledRequest {
    pub descriptor: RequestDescriptor,
    pub verbose: Option<VerboseInfo>,
    pub warnings: Vec<String>,
}

/// Inserts into an association list: the first pair with this key is
/// updated in place, otherwise the pair is appended.
pub open spec fn upsert(
    pairs: Seq<(Seq<char>, Seq<char>)>,
    k: Seq<char>,
    v: Seq<char>,
) -> Seq<(Seq<char>, Seq<char>)>
    decreases pairs.len(),
{
    if pairs.len() == 0 {
        seq![(k, v)]
    } else if pairs[0].0 == k {
        seq![(k, v)] + pairs.drop_first()
    } else {
        seq![pairs[0]] + upsert(pairs.drop_first(), k, v)
    }
}

proof fn lemma_upsert_found(pairs: Seq<(Seq<char>, Seq<char>)>, k: Seq<char>, v: Seq<char>, j: int)
    requires
        0 <= j < pairs.len(),
        pairs[j].0 == k,
        forall|t: int| 0 <= t < j ==> (#[trigger] pairs[t]).0 != k,
    ensures
        upsert(pairs, k, v) == pairs.update(j, (k, v)),
    decreases pairs.len(),
{
    if j == 0 {
        assert(seq![(k, v)] + pairs.drop_first() =~= pairs.update(0, (k, v)));
    } else {
        let rest = pairs.drop_first();
        assert(pairs[0].0 != k);
        assert(rest[j - 1].0 == k);
        assert(forall|t: int| 0 <= t < j - 1 ==> (#[trigger] rest[t]).0 != k);
        lemma_upsert_found(rest, k, v, j - 1);
        assert(seq![pairs[0]] + rest.update(j - 1, (k, v)) =~= pairs.update(j, (k, v)));
    }
}

proof fn lemma_upsert_absent(pairs: Seq<(Seq<char>, Seq<char>)>, k: Seq<char>, v: Seq<char>)
    requires
        forall|t: int| 0 <= t < pairs.len() ==> (#[trigger] pairs[t]).0 != k,
    ensures
        upsert(pairs, k, v) == pairs.push((k, v)),
    decreases pairs.len(),
{
    if pairs.len() == 0 {
        assert(seq![(k, v)] =~= pairs.push((k, v)));
    } else {
        let rest = pairs.drop_first();
        assert(forall|t: int| 0 <= t < rest.len() ==> (#[trigger] rest[t]).0 != k);
        lemma_upsert_absent(rest, k, v);
        assert(seq![pairs[0]] + rest.push((k, v)) =~= pairs.push((k, v)));
    }
}

/// Applies one body pair to the accumulated mapping, updating the first
/// entry with the same key or appending a new one.
fn upsert_pair(pairs: &mut Vec<(String, String)>, key: String, value: String)
    ensures
        final(pairs).deep_view() == upsert(old(pairs).deep_view(), key@, value@),
{
    let n = pairs.len();
    let mut j: usize = 0;
    while j < n && !(pairs[j].0 == key)
        invariant
            0 <= j <= n,
            n == pairs.len(),
            *pairs == *old(pairs),
            forall|t: int| 0 <= t < j ==> (#[trigger] pairs.deep_view()[t]).0 != key@,
        decreases n - j,
    {
        j = j + 1;
    }
    let ghost model = pairs.deep_view();
    if j < n {
        proof {
            assert(model[j as int].0 == key@);
            lemma_upsert_found(model, key@, value@, j as int);
        }
        pairs[j] = (key, value);
        proof {
            assert(pairs.deep_view() =~= model.update(j as int, (key@, value@)));
        }
    } else {
        proof {
            lemma_upsert_absent(model, key@, value@);
        }
        pairs.push((key, value));
        proof {
            assert(pairs.deep_view() =~= model.push((key@, value@)));
        }
    }
}

/// What mime_guess derives from a path; stated only through the trusted
/// item below.
pub uninterp spec fn mime_for_path(p: Seq<char>) -> Seq<char>;

/// Relies on mime_guess's `from_path` and `first_or_octet_stream`: the MIME
/// type guessed from the path's extension, `application/octet-stream` when
/// the extension is unknown; a function of the path alone.
#[verifier::external_body]
fn guess_mime(path: &str) -> (r: String)
    ensures
        r@ == mime_for_path(path@),
{
    mime_guess::from_path(path).first_or_octet_stream().to_string()
}

/// The display filename of a file part: the path's final segment, or the
/// fixed name `file` when the path has none.
pub open spec fn part_filename_spec(path: Seq<char>) -> Seq<char> {
    match last_segment(path, '/') {
        Some(seg) => seg,
        None => "file"@,
    }
}

/// The model of the file part one file item produces.
pub open spec fn file_part_spec(key: Seq<char>, path: Seq<char>) -> FilePartModel {
    FilePartModel {
        key,
        path,
        filename: part_filename_spec(path),
        mime: mime_for_path(path),
    }
}

/// The auth header applied first, when credentials are present.
pub open spec fn auth_header_seq(a: Option<AuthModel>) -> Seq<(Seq<char>, Seq<char>)> {
    match a {
        Some(x) => seq![("Authorization"@, auth_header_value_spec(x))],
        None => Seq::empty(),
    }
}

/// The header pairs contributed by the items, in item order.
pub open spec fn item_headers(items: Seq<ItemModel>) -> Seq<(Seq<char>, Seq<char>)>
    decreases items.len(),
{
    if items.len() == 0 {
        Seq::empty()
    } else {
        item_headers(items.drop_last()) + (match items.last() {
            ItemModel::Header(k, v) => seq![(k, v)],
            _ => Seq::empty(),
        })
    }
}

/// The query pairs contributed by the items, in item order.
pub open spec fn item_queries(items: Seq<ItemModel>) -> Seq<(Seq<char>, Seq<char>)>
    decreases items.len(),
{
    if items.len() == 0 {
        Seq::empty()
    } else {
        item_queries(items.drop_last()) + (match items.last() {
            ItemModel::QueryParam(k, v) => seq![(k, v)],
            _ => Seq::empty(),
        })
    }
}

/// The `(key, filepath)` pairs of the file items, in item order.
pub open spec fn item_files(items: Seq<ItemModel>) -> Seq<(Seq<char>, Seq<char>)>
    decreases items.len(),
{
    if items.len() == 0 {
        Seq::empty()
    } else {
        item_files(items.drop_last()) + (match items.last() {
            ItemModel::FormFile(k, p) => seq![(k, p)],
            _ => Seq::empty(),
        })
    }
}

/// The file parts of the file items, in item order.
pub open spec fn file_parts_spec(items: Seq<ItemModel>) -> Seq<FilePartModel>
    decreases items.len(),
{
    if items.len() == 0 {
        Seq::empty()
    } else {
        file_parts_spec(items.drop_last()) + (match items.last() {
            ItemModel::FormFile(k, p) => seq![file_part_spec(k, p)],
            _ => Seq::empty(),
        })
    }
}

/// The body mapping the items build up, first-occurrence order with
/// last-write-wins values.
pub open spec fn body_fold(items: Seq<ItemModel>) -> Seq<(Seq<char>, Seq<char>)>
    decreases items.len(),
{
    if items.len() == 0 {
        Seq::empty()
    } else {
        match items.last() {
            ItemModel::Body(k, v) => upsert(body_fold(items.drop_last()), k, v),
            _ => body_fold(items.drop_last()),
        }
    }
}

/// The retained body mapping: empty when the method drops body fields.
pub open spec fn body_pairs_spec(items: Seq<ItemModel>, m: Method) -> Seq<(Seq<char>, Seq<char>)> {
    if m.drops_body_spec() {
        Seq::empty()
    } else {
        body_fold(items)
    }
}

/// The warning raised for one body field dropped from a bodyless method.
pub open spec fn warning_message_spec(key: Seq<char>, m: Method) -> Seq<char> {
    "Warning: Ignoring body parameter '"@ + key + "' in "@ + m.name_spec() + " request"@
}

/// The warnings assembly emits: one per body item dropped because the
/// method carries no body.
pub open spec fn warnings_spec(items: Seq<ItemModel>, m: Method) -> Seq<Seq<char>>
    decreases items.len(),
{
    if items.len() == 0 {
        Seq::empty()
    } else {
        warnings_spec(items.drop_last(), m) + (match items.last() {
            ItemModel::Body(k, _v) => if m.drops_body_spec() {
                seq![warning_message_spec(k, m)]
            } else {
                Seq::empty()
            },
            _ => Seq::empty(),
        })
    }
}

/// All headers of the assembled descriptor: the auth header first, then the
/// item headers.
pub open spec fn descriptor_headers_spec(
    a: Option<AuthModel>,
    items: Seq<ItemModel>,
) -> Seq<(Seq<char>, Seq<char>)> {
    auth_header_seq(a) + item_headers(items)
}

/// The body payload of the assembled descriptor.
pub open spec fn assembled_body_spec(items: Seq<ItemModel>, m: Method) -> BodyModel {
    if has_file_spec(items) {
        BodyModel::Multipart {
            texts: body_pairs_spec(items, m),
            files: file_parts_spec(items),
        }
    } else if has_body_spec(items) && !m.drops_body_spec() {
        BodyModel::Json(body_fold(items))
    } else {
        BodyModel::Empty
    }
}

/// The assembled body follows the detector's decision: the payload is
/// multipart exactly when detection chose multipart, JSON only when
/// detection chose JSON, and absent whenever detection chose no body. (A
/// JSON choice still yields no payload when the method drops body fields.)
pub proof fn lemma_body_follows_detection(items: Seq<ItemModel>, m: Method)
    ensures
        assembled_body_spec(items, m) is Multipart <==> detect_spec(items) == Some(
            BodyType::Multipart,
        ),
        assembled_body_spec(items, m) is Json ==> detect_spec(items) == Some(BodyType::Json),
        detect_spec(items) is None ==> assembled_body_spec(items, m) is Empty,
{
}

/// The implicit content-type header echoed for a chosen body encoding.
pub open spec fn content_type_header_seq(items: Seq<ItemModel>, m: Method) -> Seq<
    (Seq<char>, Seq<char>),
> {
    if has_file_spec(items) {
        seq![("Content-Type"@, "multipart/form-data"@)]
    } else if has_body_spec(items) && !m.drops_body_spec() {
        seq![("Content-Type"@, "application/json"@)]
    } else {
        Seq::empty()
    }
}

/// The raw body string echoed in verbose mode: the serialized JSON object,
/// only when a JSON body was chosen.
pub open spec fn verbose_body_spec(items: Seq<ItemModel>, m: Method) -> Option<Seq<char>> {
    if !has_file_spec(items) && has_body_spec(items) && !m.drops_body_spec() {
        Some(json_object(body_fold(items)))
    } else {
        None
    }
}

/// The full verbose echo of one assembled request.
pub open spec fn verbose_model_spec(
    method: Method,
    url: Seq<char>,
    a: Option<AuthModel>,
    items: Seq<ItemModel>,
) -> VerboseModel {
    VerboseModel {
        method: method.name_spec(),
        url: url,
        headers: descriptor_headers_spec(a, items) + content_type_header_seq(items, method),
        query_params: item_queries(items),
        body: verbose_body_spec(items, method),
        files: item_files(items),
    }
}

/// Renders the warning for one dropped body field.
pub fn warning_message(key: &str, method: &Method) -> (r: String)
    ensures
        r@ == warning_message_spec(key@, *method),
{
    let mut r = "Warning: Ignoring body parameter '".to_owned();
    r.append(key);
    r.append("' in ");
    let name = method.name();
    r.append(name.as_str());
    r.append(" request");
    r
}

fn add_header_opt(vi: Option<VerboseInfo>, key: String, value: String) -> (r: Option<VerboseInfo>)
    ensures
        vi is None ==> r is None,
        vi is Some ==> r is Some && r.unwrap()@ == (VerboseModel {
            headers: vi.unwrap()@.headers.push((key@, value@)),
            ..vi.unwrap()@
        }),
{
    match vi {
        Some(mut info) => {
            info.add_header(key, value);
            Some(info)
        },
        None => None,
    }
}

fn add_query_param_opt(vi: Option<VerboseInfo>, key: String, value: String) -> (r: Option<
    VerboseInfo,
>)
    ensures
        vi is None ==> r is None,
        vi is Some ==> r is Some && r.unwrap()@ == (VerboseModel {
            query_params: vi.unwrap()@.query_params.push((key@, value@)),
            ..vi.unwrap()@
        }),
{
    match vi {
        Some(mut info) => {
            info.add_query_param(key, value);
            Some(info)
        },
        None => None,
    }
}

fn add_file_opt(vi: Option<VerboseInfo>, key: String, filepath: String) -> (r: Option<VerboseInfo>)
    ensures
        vi is None ==> r is None,
        vi is Some ==> r is Some && r.unwrap()@ == (VerboseModel {
            files: vi.unwrap()@.files.push((key@, filepath@)),
            ..vi.unwrap()@
        }),
{
    match vi {
        Some(mut info) => {
            info.add_file(key, filepath);
            Some(info)
        },
        None => None,
    }
}

fn set_body_opt(vi: Option<VerboseInfo>, body: String) -> (r: Option<VerboseInfo>)
    ensures
        vi is None ==> r is None,
        vi is Some ==> r is Some && r.unwrap()@ == (VerboseModel {
            body: Some(body@),
            ..vi.unwrap()@
        }),
{
    match vi {
        Some(mut info) => {
            info.set_body(body);
            Some(info)
        },
        None => None,
    }
}

/// Merges the ordered item list, optional credentials, method and URL into
/// a transport-ready descriptor, together with the verbose echo (when
/// requested) and the warnings for dropped body fields.
pub fn assemble_request(
    method: Method,
    url: &str,
    items: &Vec<RequestItem>,
    auth: &Option<Auth>,
    verbose: bool,
) -> (r: AssembledRequest)
    ensures
        r.descriptor.method == method,
        r.descriptor.url@ == url@,
        r.descriptor.headers.deep_view() == descriptor_headers_spec(
            auth.deep_view(),
            items.deep_view(),
        ),
        r.descriptor.query.deep_view() == item_queries(items.deep_view()),
        r.descriptor.body@ == assembled_body_spec(items.deep_view(), method),
        r.warnings.deep_view() == warnings_spec(items.deep_view(), method),
        !verbose ==> r.verbose is None,
        verbose ==> r.verbose is Some && r.verbose.unwrap()@ == verbose_model_spec(
            method,
            url@,
            auth.deep_view(),
            items.deep_view(),
        ),
{
    let ghost m = items.deep_view();
    let dropb = method.drops_body();
    let mut verbose_info: Option<VerboseInfo> = if verbose {
        let name = method.name();
        Some(VerboseInfo::new(name.as_str(), url))
    } else {
        None
    };
    let mut headers: Vec<(String, String)> = Vec::new();
    if let Some(a) = auth {
        let value = auth_header_value(a);
        headers.push(("Authorization".to_owned(), value.clone()));
        verbose_info = add_header_opt(verbose_info, "Authorization".to_owned(), value);
    }
    proof {
        assert(headers.deep_view() =~= auth_header_seq(auth.deep_view()));
    }
    let mut query: Vec<(String, String)> = Vec::new();
    let mut body_pairs: Vec<(String, String)> = Vec::new();
    let mut files: Vec<FilePart> = Vec::new();
    let mut warnings: Vec<String> = Vec::new();
    let mut has_file = false;
    let mut has_body = false;
    let n = items.len();
    let mut i: usize = 0;
    proof {
        assert(m.subrange(0, 0) =~= Seq::<ItemModel>::empty());
        assert(query.deep_view() =~= Seq::<(Seq<char>, Seq<char>)>::empty());
        assert(body_pairs.deep_view() =~= Seq::<(Seq<char>, Seq<char>)>::empty());
        assert(files.deep_view() =~= Seq::<FilePartModel>::empty());
        assert(warnings.deep_view() =~= Seq::<Seq<char>>::empty());
    }
    while i < n
        invariant
            0 <= i <= n,
            n == m.len(),
            m == items.deep_view(),
            dropb == method.drops_body_spec(),
            headers.deep_view() == auth_header_seq(auth.deep_view()) + item_headers(
                m.subrange(0, i as int),
            ),
            query.deep_view() == item_queries(m.subrange(0, i as int)),
            body_pairs.deep_view() == body_pairs_spec(m.subrange(0, i as int), method),
            files.deep_view() == file_parts_spec(m.subrange(0, i as int)),
            warnings.deep_view() == warnings_spec(m.subrange(0, i as int), method),
            has_file == has_file_spec(m.subrange(0, i as int)),
            has_body == has_body_spec(m.subrange(0, i as int)),
            !verbose ==> verbose_info is None,
            verbose ==> verbose_info is Some && verbose_info.unwrap()@ == (VerboseModel {
                method: method.name_spec(),
                url: url@,
                headers: auth_header_seq(auth.deep_view()) + item_headers(
                    m.subrange(0, i as int),
                ),
                query_params: item_queries(m.subrange(0, i as int)),
                body: None,
                files: item_files(m.subrange(0, i as int)),
            }),
        decreases n - i,
    {
        let ghost pre = m.subrange(0, i as int);
        let ghost post = m.subrange(0, i + 1);
        proof {
            assert(post.drop_last() =~= pre);
            assert(post.last() == m[i as int]);
        }
        let item = &items[i];
        proof {
            assert(m[i as int] == item@);
        }
        match item {
            RequestItem::Header(k, v) => {
                let ghost hs = headers.deep_view();
                headers.push((k.clone(), v.clone()));
                verbose_info = add_header_opt(verbose_info, k.clone(), v.clone());
                proof {
                    assert(m[i as int] == ItemModel::Header(k@, v@));
                    assert(headers.deep_view() =~= hs.push((k@, v@)));
                    assert(item_headers(post) =~= item_headers(pre) + seq![(k@, v@)]);
                    assert(headers.deep_view() =~= auth_header_seq(auth.deep_view())
                        + item_headers(post));
                }
            },
            RequestItem::QueryParam(k, v) => {
                let ghost qs = query.deep_view();
                query.push((k.clone(), v.clone()));
                verbose_info = add_query_param_opt(verbose_info, k.clone(), v.clone());
                proof {
                    assert(m[i as int] == ItemModel::QueryParam(k@, v@));
                    assert(query.deep_view() =~= qs.push((k@, v@)));
                    assert(item_queries(post) =~= item_queries(pre) + seq![(k@, v@)]);
                }
            },
            RequestItem::Body(k, v) => {
                proof {
                    assert(m[i as int] == ItemModel::Body(k@, v@));
                    assert(is_body_item(m[i as int]));
                }
                if dropb {
                    let ghost ws = warnings.deep_view();
                    warnings.push(warning_message(k.as_str(), &method));
                    proof {
                        assert(warnings.deep_view() =~= ws.push(
                            warning_message_spec(k@, method),
                        ));
                        assert(warnings_spec(post, method) =~= warnings_spec(pre, method)
                            + seq![warning_message_spec(k@, method)]);
                    }
                } else {
                    upsert_pair(&mut body_pairs, k.clone(), v.clone());
                    proof {
                        assert(body_pairs.deep_view() =~= body_pairs_spec(post, method));
                    }
                }
                has_body = true;
            },
            RequestItem::FormFile(k, p) => {
                proof {
                    assert(m[i as int] == ItemModel::FormFile(k@, p@));
                    assert(is_file_item(m[i as int]));
                }
                let filename = match str_last_segment(p.as_str(), '/') {
                    Some(f) => f,
                    None => "file".to_owned(),
                };
                proof {
                    assert(filename@ == part_filename_spec(p@));
                }
                let mime = guess_mime(p.as_str());
                let ghost fs = files.deep_view();
                let ghost ifs = item_files(pre);
                files.push(FilePart { key: k.clone(), path: p.clone(), filename, mime });
                verbose_info = add_file_opt(verbose_info, k.clone(), p.clone());
                has_file = true;
                proof {
                    assert(files.deep_view() =~= fs.push(file_part_spec(k@, p@)));
                    assert(file_parts_spec(post) =~= file_parts_spec(pre) + seq![
                        file_part_spec(k@, p@)
                    ]);
                    assert(item_files(post) =~= ifs + seq![(k@, p@)]);
                }
            },
        }
        i = i + 1;
    }
    proof {
        assert(m.subrange(0, n as int) =~= m);
    }
    let body = if has_file {
        verbose_info = add_header_opt(
            verbose_info,
            "Content-Type".to_owned(),
            "multipart/form-data".to_owned(),
        );
        RequestBody::Multipart { texts: body_pairs, files }
    } else if has_body && !dropb {
        let body_str = json_object_string(&body_pairs);
        verbose_info = set_body_opt(verbose_info, body_str);
        verbose_info = add_header_opt(
            verbose_info,
            "Content-Type".to_owned(),
            "application/json".to_owned(),
        );
        RequestBody::Json(body_pairs)
    } else {
        RequestBody::Empty
    };
    proof {
        assert(body@ =~= assembled_body_spec(m, method));
        if verbose {
            assert(verbose_info.unwrap()@ =~= verbose_model_spec(
                method,
                url@,
                auth.deep_view(),
                m,
            ));
        }
    }
    AssembledRequest {
        descriptor: RequestDescriptor {
            method,
            url: url.to_owned(),
            headers,
            query,
            body,
        },
        verbose: verbose_info,
        warnings,
    }
}

/// One `key=value` query pair as it appears in a URL.
pub open spec fn query_pair_str(p: (Seq<char>, Seq<char>)) -> Seq<char> {
    p.0 + seq!['='] + p.1
}

/// The query pairs joined with `&`, in order.
pub open spec fn query_string_spec(pairs: Seq<(Seq<char>, Seq<char>)>) -> Seq<char>
    decreases pairs.len(),
{
    if pairs.len() == 0 {
        Seq::empty()
    } else if pairs.len() == 1 {
        query_pair_str(pairs[0])
    } else {
        query_string_spec(pairs.drop_last()) + seq!['&'] + query_pair_str(pairs.last())
    }
}

/// The URL with the collected query string appended.
pub open spec fn full_url_spec(v: VerboseModel) -> Seq<char> {
    if v.query_params.len() == 0 {
        v.url
    } else {
        v.url + seq!['?'] + query_string_spec(v.query_params)
    }
}

/// One displayed header line; an `Authorization` value (matched ignoring
/// case) is masked.
pub open spec fn header_line_spec(k: Seq<char>, v: Seq<char>) -> Seq<char> {
    k + seq![':', ' '] + (if eq_ignore_case(k, "authorization"@) {
        mask_spec(v)
    } else {
        v
    })
}

/// The displayed header lines, in application order.
pub open spec fn header_lines_spec(hs: Seq<(Seq<char>, Seq<char>)>) -> Seq<Seq<char>>
    decreases hs.len(),
{
    if hs.len() == 0 {
        Seq::empty()
    } else {
        header_lines_spec(hs.drop_last()) + seq![
            header_line_spec(hs.last().0, hs.last().1)
        ]
    }
}

/// The request line: method, path with query, and protocol. When the full
/// URL does not re-parse, the full URL itself stands in for the path.
pub open spec fn request_line_spec(v: VerboseModel) -> Seq<char> {
    let full = full_url_spec(v);
    if url_parse_ok(full) {
        let pq = match url_query_of(full) {
            Some(q) => url_path_of(full) + seq!['?'] + q,
            None => url_path_of(full),
        };
        v.method + seq![' '] + pq + " HTTP/1.1"@
    } else {
        v.method + seq![' '] + full + " HTTP/1.1"@
    }
}

/// The `Host:` line, when the full URL re-parses and has a host.
pub open spec fn host_lines_spec(v: VerboseModel) -> Seq<Seq<char>> {
    let full = full_url_spec(v);
    if url_parse_ok(full) {
        match url_host_of(full) {
            Some(h) => seq!["Host: "@ + h],
            None => Seq::empty(),
        }
    } else {
        Seq::empty()
    }
}

/// The name a file item is listed under: the path's final segment, or the
/// whole path when it has none.
pub open spec fn file_display_name(path: Seq<char>) -> Seq<char> {
    match last_segment(path, '/') {
        Some(seg) => seg,
        None => path,
    }
}

/// One displayed file line.
pub open spec fn file_line_spec(k: Seq<char>, p: Seq<char>) -> Seq<char> {
    k + seq![' ', '@', ' '] + file_display_name(p)
}

pub open spec fn file_lines_list(fs: Seq<(Seq<char>, Seq<char>)>) -> Seq<Seq<char>>
    decreases fs.len(),
{
    if fs.len() == 0 {
        Seq::empty()
    } else {
        file_lines_list(fs.drop_last()) + seq![file_line_spec(fs.last().0, fs.last().1)]
    }
}

/// The `Files:` section: a separator, the heading, and one line per file;
/// nothing when there are no file items.
pub open spec fn files_section_spec(fs: Seq<(Seq<char>, Seq<char>)>) -> Seq<Seq<char>> {
    if fs.len() == 0 {
        Seq::empty()
    } else {
        seq![Seq::<char>::empty(), "Files:"@] + file_lines_list(fs)
    }
}

/// The displayed body: the pretty-printed JSON line by line when the
/// recorded body parses as JSON, the raw string as a single line otherwise.
pub open spec fn body_lines_spec(b: Option<Seq<char>>) -> Seq<Seq<char>> {
    match b {
        None => Seq::empty(),
        Some(s) => match json_pretty_of(s) {
            Some(p) => split_lines_spec(p),
            None => seq![s],
        },
    }
}

/// The whole verbose echo, line by line: request line, host, headers,
/// files section, a separator, and the body.
pub open spec fn trace_lines_spec(v: VerboseModel) -> Seq<Seq<char>> {
    seq![request_line_spec(v)] + host_lines_spec(v) + header_lines_spec(v.headers)
        + files_section_spec(v.files) + seq![Seq::<char>::empty()] + body_lines_spec(v.body)
}

/// Appends clones of all of `src` to `dst`.
fn append_clone(dst: &mut Vec<String>, src: &Vec<String>)
    ensures
        final(dst).deep_view() == old(dst).deep_view() + src.deep_view(),
{
    let mut j: usize = 0;
    proof {
        assert(src.deep_view().subrange(0, 0) =~= Seq::<Seq<char>>::empty());
        assert(dst.deep_view() =~= old(dst).deep_view() + src.deep_view().subrange(0, 0));
    }
    while j < src.len()
        invariant
            0 <= j <= src.len(),
            src.deep_view().len() == src.len(),
            dst.deep_view() == old(dst).deep_view() + src.deep_view().subrange(0, j as int),
        decreases src.len() - j,
    {
        let it = &src[j];
        proof {
            assert(*it == src@[j as int]);
        }
        let ghost pre = dst.deep_view();
        dst.push(it.clone());
        proof {
            assert(dst.deep_view() =~= pre.push(src.deep_view()[j as int]));
            assert(src.deep_view().subrange(0, j + 1).drop_last() =~= src.deep_view().subrange(
                0,
                j as int,
            ));
            assert(dst.deep_view() =~= old(dst).deep_view() + src.deep_view().subrange(
                0,
                j + 1,
            ));
        }
        j = j + 1;
    }
    proof {
        assert(src.deep_view().subrange(0, src.deep_view().len() as int) =~= src.deep_view());
    }
}

impl VerboseInfo {
    /// The URL with the collected query pairs appended as a query string.
    pub fn full_url(&self) -> (r: String)
        ensures
            r@ == full_url_spec(self@),
    {
        let qn = self.query_params.len();
        if qn == 0 {
            proof {
                assert(self@.query_params.len() == 0);
            }
            return self.url.clone();
        }
        let mut r = self.url.clone();
        push_char(&mut r, '?');
        let ghost qs = self@.query_params;
        let mut i: usize = 0;
        while i < qn
            invariant
                0 <= i <= qn,
                qn == qs.len(),
                qs == self@.query_params,
                r@ == self.url@ + seq!['?'] + query_string_spec(qs.subrange(0, i as int)),
            decreases qn - i,
        {
            if i > 0 {
                push_char(&mut r, '&');
            }
            let p = &self.query_params[i];
            proof {
                assert(qs[i as int] == (p.0@, p.1@));
            }
            r.append(p.0.as_str());
            push_char(&mut r, '=');
            r.append(p.1.as_str());
            proof {
                let pre = qs.subrange(0, i as int);
                let post = qs.subrange(0, i + 1);
                assert(post.drop_last() =~= pre);
                assert(post.last() == qs[i as int]);
                assert(r@ =~= self.url@ + seq!['?'] + query_string_spec(post));
            }
            i = i + 1;
        }
        proof {
            assert(qs.subrange(0, qs.len() as int) =~= qs);
            assert(self@.query_params.len() != 0);
        }
        r
    }

    /// Renders the verbose echo, one display line per entry; the caller
    /// only decorates and prints them. Reflects exactly what was recorded:
    /// no content decisions are made here.
    pub fn trace_lines(&self) -> (r: Vec<String>)
        ensures
            r.deep_view() == trace_lines_spec(self@),
    {
        let full = self.full_url();
        let parts = parse_url_parts(full.as_str());
        let mut lines: Vec<String> = Vec::new();
        match &parts {
            Some(p) => {
                let mut rl = self.method.clone();
                push_char(&mut rl, ' ');
                rl.append(p.path.as_str());
                if let Some(q) = &p.query {
                    push_char(&mut rl, '?');
                    rl.append(q.as_str());
                }
                rl.append(" HTTP/1.1");
                proof {
                    assert(rl@ =~= request_line_spec(self@));
                }
                lines.push(rl);
                if let Some(h) = &p.host {
                    let mut hl = "Host: ".to_owned();
                    hl.append(h.as_str());
                    lines.push(hl);
                }
            },
            None => {
                let mut rl = self.method.clone();
                push_char(&mut rl, ' ');
                rl.append(full.as_str());
                rl.append(" HTTP/1.1");
                proof {
                    assert(rl@ =~= request_line_spec(self@));
                }
                lines.push(rl);
            },
        }
        proof {
            assert(lines.deep_view() =~= seq![request_line_spec(self@)] + host_lines_spec(
                self@,
            ));
        }
        let ghost head = seq![request_line_spec(self@)] + host_lines_spec(self@);
        let ghost hs = self@.headers;
        let hn = self.headers.len();
        let mut i: usize = 0;
        proof {
            assert(header_lines_spec(hs.subrange(0, 0)) =~= Seq::<Seq<char>>::empty());
            assert(lines.deep_view() =~= head + header_lines_spec(hs.subrange(0, 0)));
        }
        while i < hn
            invariant
                0 <= i <= hn,
                hn == hs.len(),
                hs == self@.headers,
                lines.deep_view() == head + header_lines_spec(hs.subrange(0, i as int)),
            decreases hn - i,
        {
            let p = &self.headers[i];
            proof {
                assert(hs[i as int] == (p.0@, p.1@));
            }
            let mut hl = p.0.clone();
            push_char(&mut hl, ':');
            push_char(&mut hl, ' ');
            if str_eq_ignore_case(p.0.as_str(), "authorization") {
                let masked = mask_header_value(p.1.as_str());
                hl.append(masked.as_str());
            } else {
                hl.append(p.1.as_str());
            }
            proof {
                assert(hl@ =~= header_line_spec(p.0@, p.1@));
            }
            let ghost lv = lines.deep_view();
            let ghost hlv = hl@;
            lines.push(hl);
            proof {
                assert(lines.deep_view() =~= lv.push(hlv));
                let pre = hs.subrange(0, i as int);
                let post = hs.subrange(0, i + 1);
                assert(post.drop_last() =~= pre);
                assert(post.last() == hs[i as int]);
                assert(lines.deep_view() =~= head + header_lines_spec(post));
            }
            i = i + 1;
        }
        proof {
            assert(hs.subrange(0, hs.len() as int) =~= hs);
        }
        let ghost head2 = head + header_lines_spec(hs);
        let ghost fs = self@.files;
        if self.files.len() > 0 {
            lines.push(String::new());
            lines.push("Files:".to_owned());
            let fn_ = self.files.len();
            let mut k: usize = 0;
            proof {
                assert(file_lines_list(fs.subrange(0, 0)) =~= Seq::<Seq<char>>::empty());
                assert(lines.deep_view() =~= head2 + seq![Seq::<char>::empty(), "Files:"@]
                    + file_lines_list(fs.subrange(0, 0)));
            }
            while k < fn_
                invariant
                    0 <= k <= fn_,
                    fn_ == fs.len(),
                    fs == self@.files,
                    lines.deep_view() == head2 + seq![Seq::<char>::empty(), "Files:"@]
                        + file_lines_list(fs.subrange(0, k as int)),
                decreases fn_ - k,
            {
                let p = &self.files[k];
                proof {
                    assert(fs[k as int] == (p.0@, p.1@));
                }
                let mut fl = p.0.clone();
                push_char(&mut fl, ' ');
                push_char(&mut fl, '@');
                push_char(&mut fl, ' ');
                match str_last_segment(p.1.as_str(), '/') {
                    Some(seg) => {
                        fl.append(seg.as_str());
                    },
                    None => {
                        fl.append(p.1.as_str());
                    },
                }
                proof {
                    assert(fl@ =~= file_line_spec(p.0@, p.1@));
                }
                let ghost lv = lines.deep_view();
                let ghost flv = fl@;
                lines.push(fl);
                proof {
                    assert(lines.deep_view() =~= lv.push(flv));
                    let pre = fs.subrange(0, k as int);
                    let post = fs.subrange(0, k + 1);
                    assert(post.drop_last() =~= pre);
                    assert(post.last() == fs[k as int]);
                    assert(lines.deep_view() =~= head2 + seq![Seq::<char>::empty(), "Files:"@]
                        + file_lines_list(post));
                }
                k = k + 1;
            }
            proof {
                assert(fs.subrange(0, fs.len() as int) =~= fs);
                assert(lines.deep_view() =~= head2 + files_section_spec(fs));
            }
        } else {
            proof {
                assert(lines.deep_view() =~= head2 + files_section_spec(fs));
            }
        }
        let ghost head3 = head2 + files_section_spec(fs);
        lines.push(String::new());
        proof {
            assert(lines.deep_view() =~= head3 + seq![Seq::<char>::empty()]);
        }
        let ghost head4 = head3 + seq![Seq::<char>::empty()];
        match &self.body {
            Some(b) => {
                match json_pretty(b.as_str()) {
                    Some(pretty) => {
                        let body_lines = split_lines(pretty.as_str());
                        append_clone(&mut lines, &body_lines);
                        proof {
                            assert(lines.deep_view() =~= head4 + body_lines_spec(self@.body));
                        }
                    },
                    None => {
                        lines.push(b.clone());
                        proof {
                            assert(lines.deep_view() =~= head4 + body_lines_spec(self@.body));
                        }
                    },
                }
            },
            None => {
                proof {
                    assert(lines.deep_view() =~= head4 + body_lines_spec(self@.body));
                }
            },
        }
        proof {
            assert(lines.deep_view() =~= trace_lines_spec(self@));
        }
        lines
    }
}

} // verus!
