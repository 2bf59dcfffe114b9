//! The schema explorer: what a project's files say about its API — entities,
//! their fields, and the REST endpoints that each framework derives from them.
//! Finding and reading the files is the caller's part; the documents come in as
//! the plain values that the explorer reads from them.
use vstd::prelude::*;
use crate::text::{find, find_chars, lemma_find_from, ascii_upper, 
    chars_of, chars_seqs, concat, push_str, split_chars, split_on, str_eq, string_of, trim,
    trim_chars, slice_range, str_contains, contains, chars_within, boundary_at, first_bytes,
};
use crate::sse::{text_lines, text_lines_of};
use crate::http_engine::{to_uppercase, uppercased};
use crate::workspace::{join, join_path, lowercased, to_lowercase};

verus! {

/// A field of an entity. `default` is the field's default as JSON text.
pub struct SchemaField {
    pub name: String,
    pub field_type: String,
    pub required: bool,
    pub options: Option<Vec<String>>,
    pub description: Option<String>,
    pub default: Option<String>,
}

/// Where an entity was found.
#[derive(Clone, Copy, Debug, PartialEq, Eq, Structural)]
pub enum EntityKind {
    FrappeDoctype,
    DjangoModel,
    LaravelModel,
    RailsModel,
    OpenApiSchema,
    FastApiModel,
    Unknown,
}

/// An entity of the API: a DocType, a model, a schema.
pub struct SchemaEntity {
    pub name: String,
    pub kind: EntityKind,
    pub fields: Vec<SchemaField>,
    pub endpoints: Vec<InferredEndpoint>,
    pub description: Option<String>,
    pub source_file: String,
}

/// An endpoint of the API.
pub struct InferredEndpoint {
    pub method: String,
    pub path: String,
    pub description: Option<String>,
}

/// What exploring a project found. `raw_spec` is an OpenAPI document as JSON text.
pub struct ExplorerResult {
    pub framework: String,
    pub root_path: String,
    pub entities: Vec<SchemaEntity>,
    pub endpoints: Vec<InferredEndpoint>,
    pub raw_spec: Option<String>,
}

/// The explorer (its operations are the functions of this module).
pub struct SchemaExplorer;

/// The parts of an endpoint: method, path and description.
pub open spec fn endpoint_parts(e: InferredEndpoint) -> (Seq<char>, Seq<char>, Option<Seq<char>>) {
    (e.method@, e.path@, e.description.deep_view())
}

/// The parts of a list of endpoints.
pub open spec fn endpoints_view(v: Seq<InferredEndpoint>) -> Seq<(Seq<char>, Seq<char>, Option<Seq<char>>)> {
    v.map_values(|e: InferredEndpoint| endpoint_parts(e))
}

fn endpoint(method: &str, path: String, description: Option<&str>) -> (res: InferredEndpoint)
    ensures
        endpoint_parts(res) == (method@, path@, match description {
            Some(d) => Some(d@),
            None => None,
        }),
{
    InferredEndpoint {
        method: method.to_owned(),
        path,
        description: match description {
            Some(d) => Some(d.to_owned()),
            None => None,
        },
    }
}

fn path_of(prefix: &str, name: &str, suffix: &str) -> (res: String)
    ensures
        res@ == prefix@ + name@ + suffix@,
{
    let mut p = concat(prefix, name);
    push_str(&mut p, suffix);
    p
}

/// The REST endpoints of a Frappe DocType.
pub open spec fn frappe_endpoints_spec(doctype: Seq<char>) -> Seq<(Seq<char>, Seq<char>, Option<Seq<char>>)> {
    let list = "/api/resource/"@ + doctype;
    let one = "/api/resource/"@ + doctype + "/{name}"@;
    seq![
        ("GET"@, list, Some("List all records"@)),
        ("GET"@, one, Some("Get single record"@)),
        ("POST"@, list, Some("Create record"@)),
        ("PUT"@, one, Some("Update record"@)),
        ("DELETE"@, one, Some("Delete record"@)),
    ]
}

/// The REST endpoints of a Frappe DocType (see `frappe_endpoints_spec`).
pub fn frappe_endpoints(doctype: &str) -> (res: Vec<InferredEndpoint>)
    ensures
        endpoints_view(res@) == frappe_endpoints_spec(doctype@),
{
    let mut v: Vec<InferredEndpoint> = Vec::new();
    v.push(endpoint("GET", path_of("/api/resource/", doctype, ""), Some("List all records")));
    v.push(endpoint("GET", path_of("/api/resource/", doctype, "/{name}"), Some("Get single record")));
    v.push(endpoint("POST", path_of("/api/resource/", doctype, ""), Some("Create record")));
    v.push(endpoint("PUT", path_of("/api/resource/", doctype, "/{name}"), Some("Update record")));
    v.push(endpoint("DELETE", path_of("/api/resource/", doctype, "/{name}"), Some("Delete record")));
    proof {
        reveal_strlit("");
        assert(""@ =~= Seq::<char>::empty());
        assert(("/api/resource/"@ + doctype@ + ""@) =~= "/api/resource/"@ + doctype@);
    }
    assert(endpoints_view(v@) =~= frappe_endpoints_spec(doctype@));
    v
}

/// The DRF-style endpoints of a Django model, under its lower-cased name.
pub open spec fn django_endpoints_spec(class_name: Seq<char>) -> Seq<(Seq<char>, Seq<char>, Option<Seq<char>>)> {
    let n = lowercased(class_name);
    let list = "/api/"@ + n + "/"@;
    let one = "/api/"@ + n + "/:id/"@;
    seq![
        ("GET"@, list, Some("List"@)),
        ("POST"@, list, Some("Create"@)),
        ("GET"@, one, Some("Retrieve"@)),
        ("PUT"@, one, Some("Update"@)),
        ("DELETE"@, one, Some("Destroy"@)),
    ]
}

/// The endpoints of a Django model (see `django_endpoints_spec`).
pub fn django_endpoints(class_name: &str) -> (res: Vec<InferredEndpoint>)
    ensures
        endpoints_view(res@) == django_endpoints_spec(class_name@),
{
    let n = to_lowercase(class_name);
    let mut v: Vec<InferredEndpoint> = Vec::new();
    v.push(endpoint("GET", path_of("/api/", n.as_str(), "/"), Some("List")));
    v.push(endpoint("POST", path_of("/api/", n.as_str(), "/"), Some("Create")));
    v.push(endpoint("GET", path_of("/api/", n.as_str(), "/:id/"), Some("Retrieve")));
    v.push(endpoint("PUT", path_of("/api/", n.as_str(), "/:id/"), Some("Update")));
    v.push(endpoint("DELETE", path_of("/api/", n.as_str(), "/:id/"), Some("Destroy")));
    assert(endpoints_view(v@) =~= django_endpoints_spec(class_name@));
    v
}

/// The resource endpoints of a Laravel model, under its lower-cased name and `s`.
pub open spec fn laravel_endpoints_spec(model: Seq<char>) -> Seq<(Seq<char>, Seq<char>, Option<Seq<char>>)> {
    let n = lowercased(model);
    let list = "/api/"@ + n + "s"@;
    let one = "/api/"@ + n + "s/{id}"@;
    seq![
        ("GET"@, list, None),
        ("POST"@, list, None),
        ("GET"@, one, None),
        ("PUT"@, one, None),
        ("DELETE"@, one, None),
    ]
}

/// The endpoints of a Laravel model (see `laravel_endpoints_spec`).
pub fn laravel_endpoints(model: &str) -> (res: Vec<InferredEndpoint>)
    ensures
        endpoints_view(res@) == laravel_endpoints_spec(model@),
{
    let n = to_lowercase(model);
    let mut v: Vec<InferredEndpoint> = Vec::new();
    v.push(endpoint("GET", path_of("/api/", n.as_str(), "s"), None));
    v.push(endpoint("POST", path_of("/api/", n.as_str(), "s"), None));
    v.push(endpoint("GET", path_of("/api/", n.as_str(), "s/{id}"), None));
    v.push(endpoint("PUT", path_of("/api/", n.as_str(), "s/{id}"), None));
    v.push(endpoint("DELETE", path_of("/api/", n.as_str(), "s/{id}"), None));
    assert(endpoints_view(v@) =~= laravel_endpoints_spec(model@));
    v
}

/// The versioned endpoints of a Rails table.
pub open spec fn rails_endpoints_spec(table: Seq<char>) -> Seq<(Seq<char>, Seq<char>, Option<Seq<char>>)> {
    let list = "/api/v1/"@ + table;
    let one = "/api/v1/"@ + table + "/:id"@;
    seq![
        ("GET"@, list, None),
        ("POST"@, list, None),
        ("GET"@, one, None),
        ("PATCH"@, one, None),
        ("DELETE"@, one, None),
    ]
}

/// The endpoints of a Rails table (see `rails_endpoints_spec`).
pub fn rails_endpoints(table: &str) -> (res: Vec<InferredEndpoint>)
    ensures
        endpoints_view(res@) == rails_endpoints_spec(table@),
{
    let mut v: Vec<InferredEndpoint> = Vec::new();
    v.push(endpoint("GET", path_of("/api/v1/", table, ""), None));
    v.push(endpoint("POST", path_of("/api/v1/", table, ""), None));
    v.push(endpoint("GET", path_of("/api/v1/", table, "/:id"), None));
    v.push(endpoint("PATCH", path_of("/api/v1/", table, "/:id"), None));
    v.push(endpoint("DELETE", path_of("/api/v1/", table, "/:id"), None));
    proof {
        reveal_strlit("");
        assert(""@ =~= Seq::<char>::empty());
        assert(("/api/v1/"@ + table@ + ""@) =~= "/api/v1/"@ + table@);
    }
    assert(endpoints_view(v@) =~= rails_endpoints_spec(table@));
    v
}


// ---------------------------------------------------------------------------
// Names
// ---------------------------------------------------------------------------

/// What `char::to_uppercase` yields for a character.
pub uninterp spec fn char_uppercase(c: char) -> Seq<char>;

/// `char::to_uppercase`, collected: the upper-case mapping of `c` (one or more
/// characters). An ASCII letter maps to its capital; any other ASCII character
/// has no mapping and stays as it is.
#[verifier::external_body]
fn upper_char(c: char) -> (res: String)
    ensures
        res@ == char_uppercase(c),
        (c as u32) < 128 ==> res@ == seq![ascii_upper(c)],
{
    c.to_uppercase().collect::<String>()
}

/// The upper-case mapping of a character: for ASCII, its ASCII capital (or
/// itself); otherwise what `char::to_uppercase` yields.
pub open spec fn upper_of(c: char) -> Seq<char> {
    if (c as u32) < 128 {
        seq![ascii_upper(c)]
    } else {
        char_uppercase(c)
    }
}

/// A word with its first character upper-cased.
pub open spec fn capitalized(w: Seq<char>) -> Seq<char> {
    if w.len() == 0 {
        seq![]
    } else {
        upper_of(w[0]) + w.skip(1)
    }
}

/// The words, each capitalized, joined.
pub open spec fn capitalized_words(words: Seq<Seq<char>>) -> Seq<char>
    decreases words.len(),
{
    if words.len() == 0 {
        seq![]
    } else {
        capitalized_words(words.drop_last()) + capitalized(words.last())
    }
}

/// `snake_case` to `PascalCase`: the `_`-separated words, each capitalized, joined.
pub open spec fn pascal_case(s: Seq<char>) -> Seq<char> {
    capitalized_words(split_on(s, '_'))
}

/// A name in `PascalCase` (see `pascal_case`).
pub fn to_pascal_case(s: &str) -> (res: String)
    ensures
        res@ == pascal_case(s@),
{
    let words = split_chars(chars_of(s).as_slice(), '_');
    let ghost wv = chars_seqs(words@);
    let mut out = String::new();
    let mut i: usize = 0;
    while i < words.len()
        invariant
            i <= words.len(),
            wv == chars_seqs(words@),
            wv == split_on(s@, '_'),
            out@ == capitalized_words(wv.take(i as int)),
        decreases words.len() - i,
    {
        let w = &words[i];
        assert(w@ == wv[i as int]);
        assert(wv.take(i + 1).drop_last() =~= wv.take(i as int));
        assert(wv.take(i + 1).last() == wv[i as int]);
        if w.len() > 0 {
            let first = upper_char(w[0]);
            push_str(&mut out, first.as_str());
            let rest = slice_range(w.as_slice(), 1, w.len());
            assert(rest@ =~= w@.skip(1));
            let rest_s = string_of(rest.as_slice());
            push_str(&mut out, rest_s.as_str());
        }
        i = i + 1;
    }
    assert(wv.take(words.len() as int) =~= wv);
    out
}

// ---------------------------------------------------------------------------
// Laravel `$fillable` lists
// ---------------------------------------------------------------------------

/// Whether `c` is a quote (`'` or `"`).
pub open spec fn is_quote(c: char) -> bool {
    c == '\'' || c == '"'
}

/// `s` without the quotes at its end.
pub open spec fn trim_end_quotes(s: Seq<char>) -> Seq<char>
    decreases s.len(),
{
    if s.len() > 0 && is_quote(s.last()) {
        trim_end_quotes(s.drop_last())
    } else {
        s
    }
}

/// `s` without the quotes at its start.
pub open spec fn trim_start_quotes(s: Seq<char>) -> Seq<char>
    decreases s.len(),
{
    if s.len() > 0 && is_quote(s[0]) {
        trim_start_quotes(s.skip(1))
    } else {
        s
    }
}

/// A `$fillable` entry as a field name: trimmed, then without the quotes at
/// either end.
pub open spec fn fillable_name(item: Seq<char>) -> Seq<char> {
    trim_end_quotes(trim_start_quotes(trim(item)))
}

/// The field names of a `$fillable` list's text: its `,`-separated items as
/// field names, the empty ones left out.
pub open spec fn fillable_names(items: Seq<Seq<char>>) -> Seq<Seq<char>>
    decreases items.len(),
{
    if items.len() == 0 {
        seq![]
    } else {
        fillable_names(items.drop_last()) + if fillable_name(items.last()).len() > 0 {
            seq![fillable_name(items.last())]
        } else {
            seq![]
        }
    }
}

/// No field name taken from a `$fillable` list is empty.
pub proof fn law_fillable_names_nonempty(items: Seq<Seq<char>>)
    ensures
        forall|i: int| 0 <= i < fillable_names(items).len() ==> #[trigger] fillable_names(items)[i].len() > 0,
    decreases items.len(),
{
    if items.len() > 0 {
        law_fillable_names_nonempty(items.drop_last());
        let prev = fillable_names(items.drop_last());
        assert forall|i: int| 0 <= i < fillable_names(items).len() implies #[trigger] fillable_names(items)[i].len() > 0 by {
            if i < prev.len() {
                assert(fillable_names(items)[i] == prev[i]);
            }
        }
    }
}

fn trim_quotes(s: &[char]) -> (res: Vec<char>)
    ensures
        res@ == trim_end_quotes(trim_start_quotes(s@)),
{
    let mut a: usize = 0;
    assert(s@.skip(0) =~= s@);
    while a < s.len() && (s[a] == '\'' || s[a] == '"')
        invariant
            a <= s.len(),
            trim_start_quotes(s@.skip(a as int)) == trim_start_quotes(s@),
        decreases s.len() - a,
    {
        assert(s@.skip(a as int).skip(1) =~= s@.skip(a + 1));
        a = a + 1;
    }
    let ghost t = s@.skip(a as int);
    assert(trim_start_quotes(t) == t);
    let mut b: usize = s.len();
    while b > a && (s[b - 1] == '\'' || s[b - 1] == '"')
        invariant
            a <= b <= s.len(),
            trim_end_quotes(s@.subrange(a as int, b as int)) == trim_end_quotes(t),
        decreases b - a,
    {
        assert(s@.subrange(a as int, b as int).drop_last() =~= s@.subrange(a as int, b - 1));
        b = b - 1;
    }
    assert(t =~= s@.subrange(a as int, s.len() as int));
    let r = slice_range(s, a, b);
    assert(r@ == trim_end_quotes(r@));
    r
}

/// The field names of a `$fillable` list's text (see `fillable_names`).
pub fn fillable_fields(list: &str) -> (res: Vec<String>)
    ensures
        res.deep_view() == fillable_names(split_on(list@, ',')),
{
    let items = split_chars(chars_of(list).as_slice(), ',');
    let ghost iv = chars_seqs(items@);
    let mut out: Vec<String> = Vec::new();
    let mut i: usize = 0;
    while i < items.len()
        invariant
            i <= items.len(),
            iv == chars_seqs(items@),
            iv == split_on(list@, ','),
            out.deep_view() == fillable_names(iv.take(i as int)),
        decreases items.len() - i,
    {
        let item = &items[i];
        assert(item@ == iv[i as int]);
        assert(iv.take(i + 1).drop_last() =~= iv.take(i as int));
        assert(iv.take(i + 1).last() == iv[i as int]);
        let t = trim_chars(item.as_slice());
        let name = trim_quotes(t.as_slice());
        let ghost before = out.deep_view();
        if name.len() > 0 {
            out.push(string_of(name.as_slice()));
            assert(out.deep_view() =~= before + seq![name@]);
        } else {
            assert(out.deep_view() =~= before + seq![]);
        }
        i = i + 1;
    }
    assert(iv.take(items.len() as int) =~= iv);
    out
}


// ---------------------------------------------------------------------------
// Which framework a project uses
// ---------------------------------------------------------------------------

/// Whether the list of paths holds `p`.
pub open spec fn listed(present: Seq<Seq<char>>, p: Seq<char>) -> bool {
    present.contains(p)
}

fn is_listed(present: &Vec<String>, p: &str) -> (res: bool)
    ensures
        res == listed(present.deep_view(), p@),
{
    let ghost pv = present.deep_view();
    let mut i: usize = 0;
    while i < present.len()
        invariant
            i <= present.len(),
            pv == present.deep_view(),
            forall|k: int| 0 <= k < i ==> pv[k] != p@,
        decreases present.len() - i,
    {
        if str_eq(present[i].as_str(), p) {
            assert(pv[i as int] == p@);
            return true;
        }
        i = i + 1;
    }
    assert(!pv.contains(p@));
    false
}

/// A Frappe bench or app: `apps`, `sites`, `doctype` or `hooks.py` exists (among
/// the relative paths that `present` lists as existing).
pub fn has_frappe_structure(present: &Vec<String>) -> (res: bool)
    ensures
        res == (listed(present.deep_view(), "apps"@) || listed(present.deep_view(), "sites"@)
            || listed(present.deep_view(), "doctype"@) || listed(present.deep_view(), "hooks.py"@)),
{
    is_listed(present, "apps") || is_listed(present, "sites") || is_listed(present, "doctype")
        || is_listed(present, "hooks.py")
}

/// A Laravel project: `artisan` or `app/Models` exists.
pub fn has_laravel_structure(present: &Vec<String>) -> (res: bool)
    ensures
        res == (listed(present.deep_view(), "artisan"@) || listed(present.deep_view(), "app/Models"@)),
{
    is_listed(present, "artisan") || is_listed(present, "app/Models")
}

/// A Rails project: `db/schema.rb` exists, or the project's `Gemfile` (its text
/// in `gemfile`, `None` when there is none) mentions `rails`.
pub fn has_rails_structure(present: &Vec<String>, gemfile: &Option<String>) -> (res: bool)
    ensures
        res == (listed(present.deep_view(), "db/schema.rb"@) || (gemfile matches Some(g) && contains(g@, "rails"@))),
{
    if is_listed(present, "db/schema.rb") {
        return true;
    }
    match gemfile {
        Some(g) => str_contains(g.as_str(), "rails"),
        None => false,
    }
}

/// Where an OpenAPI document may be, in the order they are tried.
pub open spec fn openapi_candidates() -> Seq<Seq<char>> {
    seq![
        "openapi.yaml"@,
        "openapi.yml"@,
        "openapi.json"@,
        "swagger.yaml"@,
        "swagger.yml"@,
        "swagger.json"@,
        "api.yaml"@,
        "api.json"@,
        "docs/openapi.yaml"@,
        "docs/swagger.yaml"@,
        "api-docs/openapi.yaml"@,
    ]
}

/// The first candidate, from index `i` on, that `present` lists.
pub open spec fn first_candidate(present: Seq<Seq<char>>, i: int) -> Option<Seq<char>>
    decreases 11 - i,
{
    if i < 0 || i >= 11 {
        None
    } else if listed(present, openapi_candidates()[i]) {
        Some(openapi_candidates()[i])
    } else {
        first_candidate(present, i + 1)
    }
}

/// The paths of `openapi_candidates`.
pub fn openapi_candidate_list() -> (res: Vec<&'static str>)
    ensures
        res@.len() == 11,
        forall|i: int| 0 <= i < 11 ==> (#[trigger] res@[i])@ == openapi_candidates()[i],
{
    let v: Vec<&'static str> = vec![
        "openapi.yaml",
        "openapi.yml",
        "openapi.json",
        "swagger.yaml",
        "swagger.yml",
        "swagger.json",
        "api.yaml",
        "api.json",
        "docs/openapi.yaml",
        "docs/swagger.yaml",
        "api-docs/openapi.yaml",
    ];
    v
}

/// The OpenAPI document of a project: the first candidate that exists, under
/// `root`.
pub fn find_openapi_spec(root: &str, present: &Vec<String>) -> (res: Option<String>)
    ensures
        res.deep_view() == match first_candidate(present.deep_view(), 0) {
            Some(c) => Some(join(root@, c)),
            None => None,
        },
{
    let cands = openapi_candidate_list();
    let mut i: usize = 0;
    while i < cands.len()
        invariant
            i <= cands.len(),
            cands@.len() == 11,
            forall|k: int| 0 <= k < 11 ==> (#[trigger] cands@[k])@ == openapi_candidates()[k],
            first_candidate(present.deep_view(), i as int) == first_candidate(
                present.deep_view(),
                0,
            ),
        decreases cands.len() - i,
    {
        let c = cands[i];
        assert(c@ == openapi_candidates()[i as int]);
        if is_listed(present, c) {
            return Some(join_path(root, c));
        }
        i = i + 1;
    }
    None
}

/// The frameworks that the explorer knows.
#[derive(Clone, Copy, Debug, PartialEq, Eq, Structural)]
pub enum Framework {
    OpenApi,
    Frappe,
    Django,
    Laravel,
    Rails,
    FastApi,
    Express,
    Unknown,
}

/// What was found in a project: its OpenAPI document, if any, and which
/// framework layouts it has.
pub struct ProjectMarkers {
    pub openapi_spec: Option<String>,
    pub frappe: bool,
    pub django: bool,
    pub laravel: bool,
    pub rails: bool,
    pub fastapi: bool,
    pub express: bool,
}

/// The framework to explore a project as: an OpenAPI document first, then
/// Frappe, Django, Laravel, Rails, FastAPI and Express, in that order.
pub open spec fn framework_of(m: ProjectMarkers) -> Framework {
    if m.openapi_spec is Some {
        Framework::OpenApi
    } else if m.frappe {
        Framework::Frappe
    } else if m.django {
        Framework::Django
    } else if m.laravel {
        Framework::Laravel
    } else if m.rails {
        Framework::Rails
    } else if m.fastapi {
        Framework::FastApi
    } else if m.express {
        Framework::Express
    } else {
        Framework::Unknown
    }
}

/// The framework to explore a project as (see `framework_of`).
pub fn choose_framework(m: &ProjectMarkers) -> (res: Framework)
    ensures
        res == framework_of(*m),
{
    if m.openapi_spec.is_some() {
        Framework::OpenApi
    } else if m.frappe {
        Framework::Frappe
    } else if m.django {
        Framework::Django
    } else if m.laravel {
        Framework::Laravel
    } else if m.rails {
        Framework::Rails
    } else if m.fastapi {
        Framework::FastApi
    } else if m.express {
        Framework::Express
    } else {
        Framework::Unknown
    }
}

/// The result for a project whose framework is not recognised.
pub fn unknown_result(root: &str) -> (res: ExplorerResult)
    ensures
        res.framework@ == "unknown"@,
        res.root_path@ == root@,
        res.entities@.len() == 0,
        res.endpoints@.len() == 0,
        res.raw_spec is None,
{
    ExplorerResult {
        framework: "unknown".to_owned(),
        root_path: root.to_owned(),
        entities: Vec::new(),
        endpoints: Vec::new(),
        raw_spec: None,
    }
}


// ---------------------------------------------------------------------------
// OpenAPI / Swagger documents
// ---------------------------------------------------------------------------

/// The parts of a field.
pub open spec fn field_parts(f: SchemaField) -> (
    Seq<char>,
    Seq<char>,
    bool,
    Option<Seq<Seq<char>>>,
    Option<Seq<char>>,
    Option<Seq<char>>,
) {
    (f.name@, f.field_type@, f.required, f.options.deep_view(), f.description.deep_view(), f.default.deep_view())
}

/// The parts of an entity.
pub open spec fn entity_parts(e: SchemaEntity) -> (
    Seq<char>,
    EntityKind,
    Seq<(Seq<char>, Seq<char>, bool, Option<Seq<Seq<char>>>, Option<Seq<char>>, Option<Seq<char>>)>,
    Seq<(Seq<char>, Seq<char>, Option<Seq<char>>)>,
    Option<Seq<char>>,
    Seq<char>,
) {
    (
        e.name@,
        e.kind,
        e.fields@.map_values(|f: SchemaField| field_parts(f)),
        endpoints_view(e.endpoints@),
        e.description.deep_view(),
        e.source_file@,
    )
}

/// A property of an OpenAPI schema, as the explorer reads it: its `type` and
/// `description` when they are strings, the string items of its `enum` when it
/// is an array, and its `default` (as JSON text) when it has one.
pub struct OpenApiProperty {
    pub name: String,
    pub kind_name: Option<String>,
    pub enum_values: Option<Vec<String>>,
    pub description: Option<String>,
    pub default: Option<String>,
}

/// A schema of an OpenAPI document: its properties when they form an object,
/// the string items of its `required` array, and its description.
pub struct OpenApiSchema {
    pub name: String,
    pub properties: Option<Vec<OpenApiProperty>>,
    pub required: Vec<String>,
    pub description: Option<String>,
}

/// An operation of a path. `summary` and `description` are `None` when the
/// operation has no such member, `Some(None)` when the member is not a string.
pub struct OpenApiOperation {
    pub method: String,
    pub summary: Option<Option<String>>,
    pub description: Option<Option<String>>,
}

/// A path of the document, with its operations when it is an object.
pub struct OpenApiPath {
    pub path: String,
    pub operations: Option<Vec<OpenApiOperation>>,
}

/// An OpenAPI document as the explorer reads it: `/components/schemas` and
/// `/definitions` (`None` when absent, `Some(None)` when not an object), the
/// `paths` object's entries, and the whole document as JSON text.
pub struct OpenApiDocument {
    pub component_schemas: Option<Option<Vec<OpenApiSchema>>>,
    pub definitions: Option<Option<Vec<OpenApiSchema>>>,
    pub paths: Option<Vec<OpenApiPath>>,
    pub json: String,
}

/// The field that a property becomes: its type defaulting to `string`, required
/// when the schema's `required` list names it.
pub open spec fn property_field(p: OpenApiProperty, required: Seq<Seq<char>>) -> (
    Seq<char>,
    Seq<char>,
    bool,
    Option<Seq<Seq<char>>>,
    Option<Seq<char>>,
    Option<Seq<char>>,
) {
    (
        p.name@,
        match p.kind_name {
            Some(t) => t@,
            None => "string"@,
        },
        required.contains(p.name@),
        p.enum_values.deep_view(),
        p.description.deep_view(),
        p.default.deep_view(),
    )
}

/// The fields of a schema.
pub open spec fn schema_fields(s: OpenApiSchema) -> Seq<
    (Seq<char>, Seq<char>, bool, Option<Seq<Seq<char>>>, Option<Seq<char>>, Option<Seq<char>>),
> {
    match s.properties {
        Some(props) => props@.map_values(|p: OpenApiProperty| property_field(p, s.required.deep_view())),
        None => seq![],
    }
}

/// The entity that a schema becomes.
pub open spec fn schema_entity(s: OpenApiSchema, source: Seq<char>) -> (
    Seq<char>,
    EntityKind,
    Seq<(Seq<char>, Seq<char>, bool, Option<Seq<Seq<char>>>, Option<Seq<char>>, Option<Seq<char>>)>,
    Seq<(Seq<char>, Seq<char>, Option<Seq<char>>)>,
    Option<Seq<char>>,
    Seq<char>,
) {
    (s.name@, EntityKind::OpenApiSchema, schema_fields(s), seq![], s.description.deep_view(), source)
}

/// The schemas that the explorer reads: `/components/schemas` when the document
/// has it, else `/definitions`; none unless that member is an object.
pub open spec fn chosen_schemas(doc: OpenApiDocument) -> Option<Vec<OpenApiSchema>> {
    match doc.component_schemas {
        Some(c) => c,
        None => match doc.definitions {
            Some(d) => d,
            None => None,
        },
    }
}

/// The entities of a document.
pub open spec fn openapi_entities(doc: OpenApiDocument, source: Seq<char>) -> Seq<
    (
        Seq<char>,
        EntityKind,
        Seq<(Seq<char>, Seq<char>, bool, Option<Seq<Seq<char>>>, Option<Seq<char>>, Option<Seq<char>>)>,
        Seq<(Seq<char>, Seq<char>, Option<Seq<char>>)>,
        Option<Seq<char>>,
        Seq<char>,
    ),
> {
    match chosen_schemas(doc) {
        Some(v) => v@.map_values(|s: OpenApiSchema| schema_entity(s, source)),
        None => seq![],
    }
}

/// An operation's description: its `summary` when it has one, else its
/// `description`; only when that member is a string.
pub open spec fn operation_description(op: OpenApiOperation) -> Option<Seq<char>> {
    match op.summary {
        Some(s) => s.deep_view(),
        None => match op.description {
            Some(d) => d.deep_view(),
            None => None,
        },
    }
}

/// Whether a key of a path item names an operation (an HTTP method), as
/// opposed to `parameters`, `servers`, `summary` and the like.
pub open spec fn is_operation_key(k: Seq<char>) -> bool {
    k == "get"@ || k == "put"@ || k == "post"@ || k == "delete"@ || k == "options"@
        || k == "head"@ || k == "patch"@ || k == "trace"@
}

/// The endpoints of the members of a path item: each operation, in order, its
/// method upper-cased; other members are skipped.
pub open spec fn operation_endpoints(ops: Seq<OpenApiOperation>, path: Seq<char>) -> Seq<
    (Seq<char>, Seq<char>, Option<Seq<char>>),
>
    decreases ops.len(),
{
    if ops.len() == 0 {
        seq![]
    } else {
        operation_endpoints(ops.drop_last(), path) + if is_operation_key(ops.last().method@) {
            seq![(uppercased(ops.last().method@), path, operation_description(ops.last()))]
        } else {
            seq![]
        }
    }
}

/// The endpoints of a path: each of its operations.
pub open spec fn path_endpoints(p: OpenApiPath) -> Seq<(Seq<char>, Seq<char>, Option<Seq<char>>)> {
    match p.operations {
        Some(ops) => operation_endpoints(ops@, p.path@),
        None => seq![],
    }
}

/// Whether a key of a path item names an operation (see `is_operation_key`).
pub fn operation_key(k: &str) -> (res: bool)
    ensures
        res == is_operation_key(k@),
{
    str_eq(k, "get") || str_eq(k, "put") || str_eq(k, "post") || str_eq(k, "delete")
        || str_eq(k, "options") || str_eq(k, "head") || str_eq(k, "patch") || str_eq(k, "trace")
}

/// The endpoints of a list of paths, path by path.
pub open spec fn paths_endpoints(ps: Seq<OpenApiPath>) -> Seq<(Seq<char>, Seq<char>, Option<Seq<char>>)>
    decreases ps.len(),
{
    if ps.len() == 0 {
        seq![]
    } else {
        paths_endpoints(ps.drop_last()) + path_endpoints(ps.last())
    }
}

fn clone_strings(v: &Vec<String>) -> (res: Vec<String>)
    ensures
        res.deep_view() == v.deep_view(),
{
    let mut out: Vec<String> = Vec::new();
    for i in 0..v.len()
        invariant
            out.deep_view() =~= v.deep_view().take(i as int),
    {
        let ghost before = out.deep_view();
        let x = v[i].clone();
        out.push(x);
        assert(out.deep_view() =~= before.push(x@));
        assert(v.deep_view().take(i + 1) =~= v.deep_view().take(i as int).push(v.deep_view()[i as int]));
    }
    assert(v.deep_view().take(v.len() as int) =~= v.deep_view());
    out
}

fn clone_opt_strings(v: &Option<Vec<String>>) -> (res: Option<Vec<String>>)
    ensures
        res.deep_view() == v.deep_view(),
{
    match v {
        Some(x) => Some(clone_strings(x)),
        None => None,
    }
}

fn clone_opt(v: &Option<String>) -> (res: Option<String>)
    ensures
        res.deep_view() == v.deep_view(),
{
    match v {
        Some(x) => Some(x.clone()),
        None => None,
    }
}

fn contains_string(v: &Vec<String>, s: &str) -> (res: bool)
    ensures
        res == v.deep_view().contains(s@),
{
    is_listed(v, s)
}

fn schema_to_entity(s: &OpenApiSchema, source: &str) -> (res: SchemaEntity)
    ensures
        entity_parts(res) == schema_entity(*s, source@),
{
    let mut fields: Vec<SchemaField> = Vec::new();
    match &s.properties {
        Some(props) => {
            for i in 0..props.len()
                invariant
                    s.properties == Some(*props),
                    fields@.map_values(|f: SchemaField| field_parts(f)) =~= props@.take(
                        i as int,
                    ).map_values(|p: OpenApiProperty| property_field(p, s.required.deep_view())),
            {
                let p = &props[i];
                let field_type = match &p.kind_name {
                    Some(t) => t.clone(),
                    None => "string".to_owned(),
                };
                let f = SchemaField {
                    name: p.name.clone(),
                    field_type,
                    required: contains_string(&s.required, p.name.as_str()),
                    options: clone_opt_strings(&p.enum_values),
                    description: clone_opt(&p.description),
                    default: clone_opt(&p.default),
                };
                let ghost before = fields@;
                fields.push(f);
                assert(field_parts(f) == property_field(props@[i as int], s.required.deep_view()));
                assert(fields@.map_values(|f: SchemaField| field_parts(f)) =~= before.map_values(
                    |f: SchemaField| field_parts(f),
                ).push(field_parts(f)));
                assert(props@.take(i + 1) =~= props@.take(i as int).push(props@[i as int]));
                assert(props@.take(i + 1).map_values(
                    |p: OpenApiProperty| property_field(p, s.required.deep_view()),
                ) =~= props@.take(i as int).map_values(
                    |p: OpenApiProperty| property_field(p, s.required.deep_view()),
                ).push(property_field(props@[i as int], s.required.deep_view())));
            }
            assert(props@.take(props.len() as int) =~= props@);
        },
        None => {},
    }
    SchemaEntity {
        name: s.name.clone(),
        kind: EntityKind::OpenApiSchema,
        fields,
        endpoints: Vec::new(),
        description: clone_opt(&s.description),
        source_file: source.to_owned(),
    }
}

/// What an OpenAPI document describes: one entity per schema (see
/// `openapi_entities`), one endpoint per operation of each path, in order, and
/// the document itself.
pub fn parse_openapi(root: &str, source_file: &str, doc: &OpenApiDocument) -> (res: ExplorerResult)
    ensures
        res.framework@ == "openapi"@,
        res.root_path@ == root@,
        res.entities@.map_values(|e: SchemaEntity| entity_parts(e)) == openapi_entities(
            *doc,
            source_file@,
        ),
        endpoints_view(res.endpoints@) == match doc.paths {
            Some(ps) => paths_endpoints(ps@),
            None => seq![],
        },
        res.raw_spec.deep_view() == Some(doc.json@),
{
    let schemas: Option<&Vec<OpenApiSchema>> = match &doc.component_schemas {
        Some(c) => match c {
            Some(v) => Some(v),
            None => None,
        },
        None => match &doc.definitions {
            Some(d) => match d {
                Some(v) => Some(v),
                None => None,
            },
            None => None,
        },
    };
    let mut entities: Vec<SchemaEntity> = Vec::new();
    match schemas {
        Some(v) => {
            assert(chosen_schemas(*doc) == Some(*v));
            for i in 0..v.len()
                invariant
                    chosen_schemas(*doc) == Some(*v),
                    entities@.map_values(|e: SchemaEntity| entity_parts(e)) =~= v@.take(
                        i as int,
                    ).map_values(|s: OpenApiSchema| schema_entity(s, source_file@)),
            {
                let e = schema_to_entity(&v[i], source_file);
                let ghost before = entities@;
                entities.push(e);
                assert(entities@.map_values(|e: SchemaEntity| entity_parts(e)) =~= before.map_values(
                    |e: SchemaEntity| entity_parts(e),
                ).push(entity_parts(e)));
                assert(v@.take(i + 1) =~= v@.take(i as int).push(v@[i as int]));
                assert(v@.take(i + 1).map_values(|s: OpenApiSchema| schema_entity(s, source_file@))
                    =~= v@.take(i as int).map_values(
                    |s: OpenApiSchema| schema_entity(s, source_file@),
                ).push(schema_entity(v@[i as int], source_file@)));
            }
            assert(v@.take(v.len() as int) =~= v@);
        },
        None => {
            assert(chosen_schemas(*doc) is None);
        },
    }
    let mut endpoints: Vec<InferredEndpoint> = Vec::new();
    match &doc.paths {
        Some(ps) => {
            for i in 0..ps.len()
                invariant
                    endpoints_view(endpoints@) =~= paths_endpoints(ps@.take(i as int)),
            {
                let p = &ps[i];
                let ghost start = endpoints_view(endpoints@);
                match &p.operations {
                    Some(ops) => {
                        for j in 0..ops.len()
                            invariant
                                p.operations == Some(*ops),
                                endpoints_view(endpoints@) =~= start + operation_endpoints(
                                    ops@.take(j as int),
                                    p.path@,
                                ),
                        {
                            let op = &ops[j];
                            assert(ops@.take(j + 1).drop_last() =~= ops@.take(j as int));
                            assert(ops@.take(j + 1).last() == ops@[j as int]);
                            if operation_key(op.method.as_str()) {
                                let description: Option<String> = match &op.summary {
                                    Some(s) => clone_opt(s),
                                    None => match &op.description {
                                        Some(d) => clone_opt(d),
                                        None => None,
                                    },
                                };
                                let e = InferredEndpoint {
                                    method: to_uppercase(op.method.as_str()),
                                    path: p.path.clone(),
                                    description,
                                };
                                let ghost before = endpoints@;
                                endpoints.push(e);
                                assert(endpoint_parts(e) == (
                                    uppercased(ops@[j as int].method@),
                                    p.path@,
                                    operation_description(ops@[j as int]),
                                ));
                                assert(endpoints_view(endpoints@) =~= endpoints_view(before).push(
                                    endpoint_parts(e),
                                ));
                            }
                        }
                        assert(ops@.take(ops.len() as int) =~= ops@);
                    },
                    None => {
                        assert(start + path_endpoints(*p) =~= start);
                    },
                }
                assert(ps@.take(i + 1).drop_last() =~= ps@.take(i as int));
                assert(ps@.take(i + 1).last() == ps@[i as int]);
            }
            assert(ps@.take(ps.len() as int) =~= ps@);
        },
        None => {},
    }
    ExplorerResult {
        framework: "openapi".to_owned(),
        root_path: root.to_owned(),
        entities,
        endpoints,
        raw_spec: Some(doc.json.clone()),
    }
}


// ---------------------------------------------------------------------------
// Frappe DocTypes
// ---------------------------------------------------------------------------

/// A field of a DocType file, as the explorer reads it: each member when it is
/// a string (`reqd` when it is an integer), and `default` (as JSON text) when
/// the field has one.
pub struct DoctypeField {
    pub fieldname: Option<String>,
    pub fieldtype: Option<String>,
    pub reqd: Option<i64>,
    pub options: Option<String>,
    pub description: Option<String>,
    pub default: Option<String>,
}

/// A DocType file: its name and description when they are strings, and its
/// fields when `fields` is an array.
pub struct DoctypeDocument {
    pub name: Option<String>,
    pub description: Option<String>,
    pub fields: Option<Vec<DoctypeField>>,
}

/// The field that a DocType field becomes: name (empty when missing), type
/// (`Data` when missing), required when `reqd` is 1, and the lines of its
/// `options` text.
pub open spec fn doctype_field(f: DoctypeField) -> (
    Seq<char>,
    Seq<char>,
    bool,
    Option<Seq<Seq<char>>>,
    Option<Seq<char>>,
    Option<Seq<char>>,
) {
    (
        match f.fieldname {
            Some(n) => n@,
            None => seq![],
        },
        match f.fieldtype {
            Some(t) => t@,
            None => "Data"@,
        },
        f.reqd == Some(1i64),
        match f.options {
            Some(o) => Some(text_lines(o@)),
            None => None,
        },
        f.description.deep_view(),
        f.default.deep_view(),
    )
}

fn lines_as_strings(text: &str) -> (res: Vec<String>)
    ensures
        res.deep_view() == text_lines(text@),
{
    let lines = text_lines_of(chars_of(text).as_slice());
    let mut out: Vec<String> = Vec::new();
    for i in 0..lines.len()
        invariant
            out.deep_view() =~= chars_seqs(lines@).take(i as int),
    {
        let ghost before = out.deep_view();
        let t = string_of(lines[i].as_slice());
        out.push(t);
        assert(out.deep_view() =~= before.push(t@));
        assert(chars_seqs(lines@).take(i + 1) =~= chars_seqs(lines@).take(i as int).push(
            lines@[i as int]@,
        ));
    }
    assert(chars_seqs(lines@).take(lines.len() as int) =~= chars_seqs(lines@));
    out
}

/// The entity of a DocType file (its name `Unknown` when missing), without
/// endpoints.
pub fn frappe_doctype_entity(doc: &DoctypeDocument, source_file: &str) -> (res: SchemaEntity)
    ensures
        entity_parts(res) == (
            match doc.name {
                Some(n) => n@,
                None => "Unknown"@,
            },
            EntityKind::FrappeDoctype,
            match doc.fields {
                Some(fs) => fs@.map_values(|f: DoctypeField| doctype_field(f)),
                None => seq![],
            },
            Seq::<(Seq<char>, Seq<char>, Option<Seq<char>>)>::empty(),
            doc.description.deep_view(),
            source_file@,
        ),
{
    let mut fields: Vec<SchemaField> = Vec::new();
    match &doc.fields {
        Some(fs) => {
            for i in 0..fs.len()
                invariant
                    fields@.map_values(|f: SchemaField| field_parts(f)) =~= fs@.take(
                        i as int,
                    ).map_values(|f: DoctypeField| doctype_field(f)),
            {
                let d = &fs[i];
                let f = SchemaField {
                    name: match &d.fieldname {
                        Some(n) => n.clone(),
                        None => String::new(),
                    },
                    field_type: match &d.fieldtype {
                        Some(t) => t.clone(),
                        None => "Data".to_owned(),
                    },
                    required: match d.reqd {
                        Some(r) => r == 1,
                        None => false,
                    },
                    options: match &d.options {
                        Some(o) => Some(lines_as_strings(o.as_str())),
                        None => None,
                    },
                    description: clone_opt(&d.description),
                    default: clone_opt(&d.default),
                };
                let ghost before = fields@;
                fields.push(f);
                assert(field_parts(f) == doctype_field(fs@[i as int]));
                assert(fields@.map_values(|f: SchemaField| field_parts(f)) =~= before.map_values(
                    |f: SchemaField| field_parts(f),
                ).push(field_parts(f)));
                assert(fs@.take(i + 1).map_values(|f: DoctypeField| doctype_field(f))
                    =~= fs@.take(i as int).map_values(|f: DoctypeField| doctype_field(f)).push(
                    doctype_field(fs@[i as int]),
                ));
            }
            assert(fs@.take(fs.len() as int) =~= fs@);
        },
        None => {},
    }
    let res = SchemaEntity {
        name: match &doc.name {
            Some(n) => n.clone(),
            None => "Unknown".to_owned(),
        },
        kind: EntityKind::FrappeDoctype,
        fields,
        endpoints: Vec::new(),
        description: clone_opt(&doc.description),
        source_file: source_file.to_owned(),
    };
    assert(endpoints_view(res.endpoints@) =~= Seq::<(Seq<char>, Seq<char>, Option<Seq<char>>)>::empty());
    res
}

/// The endpoints of a list of DocTypes, one after the other.
pub open spec fn doctypes_endpoints(names: Seq<Seq<char>>) -> Seq<(Seq<char>, Seq<char>, Option<Seq<char>>)>
    decreases names.len(),
{
    if names.len() == 0 {
        seq![]
    } else {
        doctypes_endpoints(names.drop_last()) + frappe_endpoints_spec(names.last())
    }
}

/// The result of exploring a Frappe project: the DocTypes, each given its REST
/// endpoints, and all those endpoints together.
pub fn frappe_result(root: &str, doctypes: Vec<SchemaEntity>) -> (res: ExplorerResult)
    ensures
        res.framework@ == "frappe"@,
        res.root_path@ == root@,
        res.entities@.len() == doctypes@.len(),
        forall|i: int|
            0 <= i < doctypes@.len() ==> {
                let e = #[trigger] res.entities@[i];
                let d = doctypes@[i];
                &&& entity_parts(e).0 == entity_parts(d).0
                &&& e.kind == d.kind
                &&& entity_parts(e).2 == entity_parts(d).2
                &&& endpoints_view(e.endpoints@) == frappe_endpoints_spec(d.name@)
                &&& entity_parts(e).4 == entity_parts(d).4
                &&& e.source_file@ == d.source_file@
            },
        endpoints_view(res.endpoints@) == doctypes_endpoints(
            doctypes@.map_values(|d: SchemaEntity| d.name@),
        ),
        res.raw_spec is None,
{
    let ghost names = doctypes@.map_values(|d: SchemaEntity| d.name@);
    let ghost orig = doctypes@;
    let mut entities: Vec<SchemaEntity> = Vec::new();
    let mut all: Vec<InferredEndpoint> = Vec::new();
    let mut src = doctypes;
    let n = src.len();
    let mut i: usize = 0;
    while i < n
        invariant
            i <= n,
            n == orig.len(),
            src@.len() == n,
            forall|k: int| i <= k < n ==> src@[k] == orig[k],
            entities@.len() == i,
            forall|k: int|
                0 <= k < i ==> {
                    let e = #[trigger] entities@[k];
                    let d = orig[k];
                    &&& entity_parts(e).0 == entity_parts(d).0
                    &&& e.kind == d.kind
                    &&& entity_parts(e).2 == entity_parts(d).2
                    &&& endpoints_view(e.endpoints@) == frappe_endpoints_spec(d.name@)
                    &&& entity_parts(e).4 == entity_parts(d).4
                    &&& e.source_file@ == d.source_file@
                },
            names == orig.map_values(|d: SchemaEntity| d.name@),
            endpoints_view(all@) == doctypes_endpoints(names.take(i as int)),
        decreases n - i,
    {
        let mut e = SchemaEntity {
            name: String::new(),
            kind: EntityKind::Unknown,
            fields: Vec::new(),
            endpoints: Vec::new(),
            description: None,
            source_file: String::new(),
        };
        src.set_and_swap(i, &mut e);
        assert(e == orig[i as int]);
        let eps = frappe_endpoints(e.name.as_str());
        let ghost before_all = all@;
        let mut j: usize = 0;
        while j < eps.len()
            invariant
                j <= eps.len(),
                endpoints_view(all@) =~= endpoints_view(before_all) + endpoints_view(eps@.take(j as int)),
            decreases eps.len() - j,
        {
            let x = InferredEndpoint {
                method: eps[j].method.clone(),
                path: eps[j].path.clone(),
                description: clone_opt(&eps[j].description),
            };
            let ghost b = all@;
            all.push(x);
            assert(endpoints_view(all@) =~= endpoints_view(b).push(endpoint_parts(x)));
            assert(eps@.take(j + 1) =~= eps@.take(j as int).push(eps@[j as int]));
            assert(endpoints_view(eps@.take(j + 1)) =~= endpoints_view(eps@.take(j as int)).push(
                endpoint_parts(eps@[j as int]),
            ));
            j = j + 1;
        }
        assert(eps@.take(eps.len() as int) =~= eps@);
        assert(names.take(i + 1).drop_last() =~= names.take(i as int));
        assert(names.take(i + 1).last() == orig[i as int].name@);
        e.endpoints = eps;
        entities.push(e);
        i = i + 1;
    }
    assert(names.take(n as int) =~= names);
    ExplorerResult {
        framework: "frappe".to_owned(),
        root_path: root.to_owned(),
        entities,
        endpoints: all,
        raw_spec: None,
    }
}


// ---------------------------------------------------------------------------
// Source files read with regular expressions
// ---------------------------------------------------------------------------

/// What `regex::Regex::new(pattern)` and `captures_iter(text)` yield: for each
/// match in order, the text of each capture group (group 0 is the whole match,
/// `None` for a group that did not take part) and the text after the match;
/// nothing when the pattern does not compile.
pub uninterp spec fn regex_captures(pattern: Seq<char>, text: Seq<char>) -> Seq<
    (Seq<Option<Seq<char>>>, Seq<char>),
>;

/// What `regex::Regex::new(pattern)` and `find(text)` yield: the text before
/// the first match, or `None` when there is no match or the pattern does not
/// compile.
pub uninterp spec fn regex_prefix(pattern: Seq<char>, text: Seq<char>) -> Option<Seq<char>>;

/// `Regex::captures_iter`, each match read as its groups' texts and the rest of
/// the text after it (see `regex_captures`).
#[verifier::external_body]
pub(crate) fn captures_all(pattern: &str, text: &str) -> (res: Vec<(Vec<Option<String>>, String)>)
    ensures
        res.deep_view() == regex_captures(pattern@, text@),
{
    match regex::Regex::new(pattern) {
        Ok(re) => re.captures_iter(text).map(|c| (
            c.iter().map(|m| m.map(|m| m.as_str().to_string())).collect(),
            text[c.get(0).map(|m| m.end()).unwrap_or(0)..].to_string(),
        )).collect(),
        Err(_) => Vec::new(),
    }
}

/// `Regex::find`, read as the text before the match (see `regex_prefix`).
#[verifier::external_body]
fn prefix_before_match(pattern: &str, text: &str) -> (res: Option<String>)
    ensures
        res.deep_view() == regex_prefix(pattern@, text@),
{
    match regex::Regex::new(pattern) {
        Ok(re) => re.find(text).map(|m| text[..m.start()].to_string()),
        Err(_) => None,
    }
}

/// The text of group `k` of a match, or empty.
pub open spec fn group(g: Seq<Option<Seq<char>>>, k: int) -> Seq<char> {
    if 0 <= k < g.len() {
        match g[k] {
            Some(t) => t,
            None => seq![],
        }
    } else {
        seq![]
    }
}

pub(crate) fn group_text(g: &Vec<Option<String>>, k: usize) -> (res: String)
    ensures
        res@ == group(g.deep_view(), k as int),
{
    if k < g.len() {
        match &g[k] {
            Some(t) => t.clone(),
            None => String::new(),
        }
    } else {
        String::new()
    }
}

/// The pattern of a Rails table definition.
pub open spec fn rails_table_pattern() -> Seq<char> {
    "create_table\\s+\"(\\w+)\""@
}

/// The pattern of a Rails column definition.
pub open spec fn rails_column_pattern() -> Seq<char> {
    "t\\.(\\w+)\\s+\"(\\w+)\""@
}

/// The lines before the first line that is `end` alone (blanks around it
/// aside), each followed by a line break.
pub open spec fn lines_before_end(lines: Seq<Seq<char>>) -> Seq<char>
    decreases lines.len(),
{
    if lines.len() == 0 {
        seq![]
    } else if trim(lines[0]) == "end"@ {
        seq![]
    } else {
        lines[0] + seq!['\n'] + lines_before_end(lines.skip(1))
    }
}

/// A table's body: the lines after its definition up to the line `end`.
pub open spec fn up_to_end(rest: Seq<char>) -> Seq<char> {
    lines_before_end(split_on(rest, '\n'))
}

/// The fields of a Rails table, from the column matches of its body: each
/// `t.<type> "<name>"` as a field, not required.
pub open spec fn rails_fields(columns: Seq<(Seq<Option<Seq<char>>>, Seq<char>)>) -> Seq<(Seq<char>, Seq<char>, bool, Option<Seq<Seq<char>>>, Option<Seq<char>>, Option<Seq<char>>)> {
    columns.map_values(
        |m: (Seq<Option<Seq<char>>>, Seq<char>)| (group(m.0, 2), group(m.0, 1), false, None, None, None),
    )
}

/// The entity of the Rails table `table`, given the column matches of its
/// body: its name in `PascalCase`, its columns, and its versioned endpoints.
pub open spec fn rails_entity_of(
    table: Seq<char>,
    columns: Seq<(Seq<Option<Seq<char>>>, Seq<char>)>,
    source: Seq<char>,
) -> (
    Seq<char>,
    EntityKind,
    Seq<(Seq<char>, Seq<char>, bool, Option<Seq<Seq<char>>>, Option<Seq<char>>, Option<Seq<char>>)>,
    Seq<(Seq<char>, Seq<char>, Option<Seq<char>>)>,
    Option<Seq<char>>,
    Seq<char>,
) {
    (pascal_case(table), EntityKind::RailsModel, rails_fields(columns), rails_endpoints_spec(table), None, source)
}

/// The entity of a table match of `db/schema.rb`.
pub open spec fn rails_entity(m: (Seq<Option<Seq<char>>>, Seq<char>), source: Seq<char>) -> (
    Seq<char>,
    EntityKind,
    Seq<(Seq<char>, Seq<char>, bool, Option<Seq<Seq<char>>>, Option<Seq<char>>, Option<Seq<char>>)>,
    Seq<(Seq<char>, Seq<char>, Option<Seq<char>>)>,
    Option<Seq<char>>,
    Seq<char>,
) {
    rails_entity_of(group(m.0, 1), regex_captures(rails_column_pattern(), up_to_end(m.1)), source)
}

/// The body of a table: the lines after its definition up to the line `end`
/// (see `up_to_end`).
pub fn table_body(rest: &str) -> (res: String)
    ensures
        res@ == up_to_end(rest@),
{
    let lines = split_chars(chars_of(rest).as_slice(), '\n');
    let ghost ls = chars_seqs(lines@);
    let mut out = String::new();
    let mut i: usize = 0;
    let mut found = false;
    assert(ls.skip(0) =~= ls);
    while i < lines.len() && !found
        invariant
            i <= lines.len(),
            ls == chars_seqs(lines@),
            !found ==> out@ + lines_before_end(ls.skip(i as int)) == lines_before_end(ls),
            found ==> out@ == lines_before_end(ls),
        decreases lines.len() - i + (if found { 0int } else { 1int }),
    {
        let t = string_of(trim_chars(lines[i].as_slice()).as_slice());
        let line = string_of(lines[i].as_slice());
        assert(ls.skip(i as int)[0] == line@);
        if str_eq(t.as_str(), "end") {
            assert(lines_before_end(ls.skip(i as int)) == Seq::<char>::empty());
            assert(out@ + Seq::<char>::empty() =~= out@);
            found = true;
        } else {
            let ghost before = out@;
            push_str(&mut out, line.as_str());
            out.push('\n');
            assert(ls.skip(i as int).skip(1) =~= ls.skip(i + 1));
            assert(out@ =~= before + line@ + seq!['\n']);
            assert(lines_before_end(ls.skip(i as int)) == line@ + seq!['\n'] + lines_before_end(ls.skip(i + 1)));
            assert(before + (line@ + seq!['\n'] + lines_before_end(ls.skip(i + 1))) =~= out@ + lines_before_end(ls.skip(i + 1)));
            i = i + 1;
        }
    }
    if !found {
        assert(ls.skip(i as int) =~= Seq::<Seq<char>>::empty());
        assert(out@ + Seq::<char>::empty() =~= out@);
    }
    out
}

/// The entity of the Rails table `table`, given the matches of the column
/// pattern over its body (see `rails_entity_of`).
pub fn rails_table_entity(
    table: &str,
    columns: &Vec<(Vec<Option<String>>, String)>,
    source_file: &str,
) -> (res: SchemaEntity)
    ensures
        entity_parts(res) == rails_entity_of(table@, columns.deep_view(), source_file@),
{
    SchemaEntity {
        name: to_pascal_case(table),
        kind: EntityKind::RailsModel,
        fields: fields_from_captures(columns, 2, 1, false),
        endpoints: rails_endpoints(table),
        description: None,
        source_file: source_file.to_owned(),
    }
}

fn fields_from_captures(caps: &Vec<(Vec<Option<String>>, String)>, name_group: usize, type_group: usize, required: bool) -> (res: Vec<SchemaField>)
    ensures
        res@.map_values(|f: SchemaField| field_parts(f)) == caps.deep_view().map_values(
            |m: (Seq<Option<Seq<char>>>, Seq<char>)|
                (group(m.0, name_group as int), group(m.0, type_group as int), required, None::<Seq<Seq<char>>>, None::<Seq<char>>, None::<Seq<char>>),
        ),
{
    let mut out: Vec<SchemaField> = Vec::new();
    for i in 0..caps.len()
        invariant
            out@.map_values(|f: SchemaField| field_parts(f)) =~= caps.deep_view().take(i as int).map_values(
                |m: (Seq<Option<Seq<char>>>, Seq<char>)|
                    (group(m.0, name_group as int), group(m.0, type_group as int), required, None::<Seq<Seq<char>>>, None::<Seq<char>>, None::<Seq<char>>),
            ),
    {
        let f = SchemaField {
            name: group_text(&caps[i].0, name_group),
            field_type: group_text(&caps[i].0, type_group),
            required,
            options: None,
            description: None,
            default: None,
        };
        let ghost before = out@;
        out.push(f);
        assert(out@.map_values(|f: SchemaField| field_parts(f)) =~= before.map_values(
            |f: SchemaField| field_parts(f),
        ).push(field_parts(f)));
        assert(caps.deep_view().take(i + 1) =~= caps.deep_view().take(i as int).push(
            caps.deep_view()[i as int],
        ));
    }
    assert(caps.deep_view().take(caps.len() as int) =~= caps.deep_view());
    out
}

/// The entities of a `db/schema.rb` file: one per `create_table "<name>"`, in order.
pub fn parse_rails_schema(content: &str, source_file: &str) -> (res: Vec<SchemaEntity>)
    ensures
        res@.map_values(|e: SchemaEntity| entity_parts(e)) == regex_captures(
            rails_table_pattern(),
            content@,
        ).map_values(|m: (Seq<Option<Seq<char>>>, Seq<char>)| rails_entity(m, source_file@)),
{
    let tables = captures_all("create_table\\s+\"(\\w+)\"", content);
    let mut out: Vec<SchemaEntity> = Vec::new();
    for i in 0..tables.len()
        invariant
            tables.deep_view() == regex_captures(rails_table_pattern(), content@),
            out@.map_values(|e: SchemaEntity| entity_parts(e)) =~= tables.deep_view().take(i as int).map_values(
                |m: (Seq<Option<Seq<char>>>, Seq<char>)| rails_entity(m, source_file@),
            ),
    {
        let table = group_text(&tables[i].0, 1);
        let body = table_body(tables[i].1.as_str());
        let cols = captures_all("t\\.(\\w+)\\s+\"(\\w+)\"", body.as_str());
        let e = rails_table_entity(table.as_str(), &cols, source_file);
        let ghost before = out@;
        out.push(e);
        assert(entity_parts(e) == rails_entity(tables.deep_view()[i as int], source_file@));
        assert(out@.map_values(|e: SchemaEntity| entity_parts(e)) =~= before.map_values(
            |e: SchemaEntity| entity_parts(e),
        ).push(entity_parts(e)));
        assert(tables.deep_view().take(i + 1) =~= tables.deep_view().take(i as int).push(
            tables.deep_view()[i as int],
        ));
    }
    assert(tables.deep_view().take(tables.len() as int) =~= tables.deep_view());
    out
}


/// The pattern of a Django model class.
pub open spec fn django_class_pattern() -> Seq<char> {
    "class\\s+(\\w+)\\s*\\([^)]*models\\.Model[^)]*\\)"@
}

/// The pattern of a Django model field.
pub open spec fn django_field_pattern() -> Seq<char> {
    "\\s+(\\w+)\\s*=\\s*models\\.(\\w+)\\("@
}

/// A class's body: the text after its header up to the next model class.
pub open spec fn django_body(after: Seq<char>) -> Seq<char> {
    match regex_prefix(django_class_pattern(), after) {
        Some(p) => p,
        None => after,
    }
}

/// The fields of a Django model, from the field matches of its body: each
/// `name = models.Type(` as a field, required.
pub open spec fn django_fields(caps: Seq<(Seq<Option<Seq<char>>>, Seq<char>)>) -> Seq<(Seq<char>, Seq<char>, bool, Option<Seq<Seq<char>>>, Option<Seq<char>>, Option<Seq<char>>)> {
    caps.map_values(
        |f: (Seq<Option<Seq<char>>>, Seq<char>)| (group(f.0, 1), group(f.0, 2), true, None, None, None),
    )
}

/// The entity of the Django model class `name`, given the field matches of
/// its body: its fields and its DRF-style endpoints.
pub open spec fn django_entity_of(
    name: Seq<char>,
    caps: Seq<(Seq<Option<Seq<char>>>, Seq<char>)>,
    source: Seq<char>,
) -> (
    Seq<char>,
    EntityKind,
    Seq<(Seq<char>, Seq<char>, bool, Option<Seq<Seq<char>>>, Option<Seq<char>>, Option<Seq<char>>)>,
    Seq<(Seq<char>, Seq<char>, Option<Seq<char>>)>,
    Option<Seq<char>>,
    Seq<char>,
) {
    (name, EntityKind::DjangoModel, django_fields(caps), django_endpoints_spec(name), None, source)
}

/// The entity of a model class match of a `models.py` file.
pub open spec fn django_entity(m: (Seq<Option<Seq<char>>>, Seq<char>), source: Seq<char>) -> (
    Seq<char>,
    EntityKind,
    Seq<(Seq<char>, Seq<char>, bool, Option<Seq<Seq<char>>>, Option<Seq<char>>, Option<Seq<char>>)>,
    Seq<(Seq<char>, Seq<char>, Option<Seq<char>>)>,
    Option<Seq<char>>,
    Seq<char>,
) {
    django_entity_of(group(m.0, 1), regex_captures(django_field_pattern(), django_body(m.1)), source)
}

/// The entity of the Django model class `name`, given the matches of the
/// field pattern over its body (see `django_entity_of`).
pub fn django_model_entity(
    name: &str,
    fields: &Vec<(Vec<Option<String>>, String)>,
    source_file: &str,
) -> (res: SchemaEntity)
    ensures
        entity_parts(res) == django_entity_of(name@, fields.deep_view(), source_file@),
{
    SchemaEntity {
        name: name.to_owned(),
        kind: EntityKind::DjangoModel,
        fields: fields_from_captures(fields, 1, 2, true),
        endpoints: django_endpoints(name),
        description: None,
        source_file: source_file.to_owned(),
    }
}

/// The entities of a `models.py` file: one per model class, in order.
pub fn parse_django_models(content: &str, source_file: &str) -> (res: Vec<SchemaEntity>)
    ensures
        res@.map_values(|e: SchemaEntity| entity_parts(e)) == regex_captures(
            django_class_pattern(),
            content@,
        ).map_values(|m: (Seq<Option<Seq<char>>>, Seq<char>)| django_entity(m, source_file@)),
{
    let classes = captures_all("class\\s+(\\w+)\\s*\\([^)]*models\\.Model[^)]*\\)", content);
    let mut out: Vec<SchemaEntity> = Vec::new();
    for i in 0..classes.len()
        invariant
            classes.deep_view() == regex_captures(django_class_pattern(), content@),
            out@.map_values(|e: SchemaEntity| entity_parts(e)) =~= classes.deep_view().take(i as int).map_values(
                |m: (Seq<Option<Seq<char>>>, Seq<char>)| django_entity(m, source_file@),
            ),
    {
        let name = group_text(&classes[i].0, 1);
        let after = &classes[i].1;
        let body = match prefix_before_match(
            "class\\s+(\\w+)\\s*\\([^)]*models\\.Model[^)]*\\)",
            after.as_str(),
        ) {
            Some(p) => p,
            None => after.clone(),
        };
        let caps = captures_all("\\s+(\\w+)\\s*=\\s*models\\.(\\w+)\\(", body.as_str());
        let e = django_model_entity(name.as_str(), &caps, source_file);
        let ghost before = out@;
        out.push(e);
        assert(entity_parts(e) == django_entity(classes.deep_view()[i as int], source_file@));
        assert(out@.map_values(|e: SchemaEntity| entity_parts(e)) =~= before.map_values(
            |e: SchemaEntity| entity_parts(e),
        ).push(entity_parts(e)));
        assert(classes.deep_view().take(i + 1) =~= classes.deep_view().take(i as int).push(
            classes.deep_view()[i as int],
        ));
    }
    assert(classes.deep_view().take(classes.len() as int) =~= classes.deep_view());
    out
}

/// The pattern of a Laravel model's `$fillable` list.
pub open spec fn fillable_pattern() -> Seq<char> {
    "\\$fillable\\s*=\\s*\\[([^\\]]+)\\]"@
}

/// The fields of a Laravel model, from the matches of the `$fillable`
/// pattern: the names of the first list, as strings, all required.
pub open spec fn laravel_fields_of(caps: Seq<(Seq<Option<Seq<char>>>, Seq<char>)>) -> Seq<(Seq<char>, Seq<char>, bool, Option<Seq<Seq<char>>>, Option<Seq<char>>, Option<Seq<char>>)> {
    if caps.len() == 0 {
        seq![]
    } else {
        fillable_names(split_on(group(caps[0].0, 1), ',')).map_values(
            |n: Seq<char>| (n, "string"@, true, None, None, None),
        )
    }
}

/// The fields of a Laravel model file.
pub open spec fn laravel_fields(content: Seq<char>) -> Seq<(Seq<char>, Seq<char>, bool, Option<Seq<Seq<char>>>, Option<Seq<char>>, Option<Seq<char>>)> {
    laravel_fields_of(regex_captures(fillable_pattern(), content))
}

/// The entity of the Laravel model `name`, given the matches of the
/// `$fillable` pattern over its file.
pub fn laravel_entity_from(
    name: &str,
    fillable: &Vec<(Vec<Option<String>>, String)>,
    source_file: &str,
) -> (res: SchemaEntity)
    ensures
        entity_parts(res) == (
            name@,
            EntityKind::LaravelModel,
            laravel_fields_of(fillable.deep_view()),
            laravel_endpoints_spec(name@),
            None::<Seq<char>>,
            source_file@,
        ),
{
    let mut fields: Vec<SchemaField> = Vec::new();
    if fillable.len() > 0 {
        let list = group_text(&fillable[0].0, 1);
        let names = fillable_fields(list.as_str());
        for i in 0..names.len()
            invariant
                fields@.map_values(|f: SchemaField| field_parts(f)) =~= names.deep_view().take(i as int).map_values(
                    |n: Seq<char>| (n, "string"@, true, None::<Seq<Seq<char>>>, None::<Seq<char>>, None::<Seq<char>>),
                ),
        {
            let f = SchemaField {
                name: names[i].clone(),
                field_type: "string".to_owned(),
                required: true,
                options: None,
                description: None,
                default: None,
            };
            let ghost before = fields@;
            fields.push(f);
            assert(fields@.map_values(|f: SchemaField| field_parts(f)) =~= before.map_values(
                |f: SchemaField| field_parts(f),
            ).push(field_parts(f)));
            assert(names.deep_view().take(i + 1) =~= names.deep_view().take(i as int).push(
                names.deep_view()[i as int],
            ));
        }
        assert(names.deep_view().take(names.len() as int) =~= names.deep_view());
    }
    SchemaEntity {
        name: name.to_owned(),
        kind: EntityKind::LaravelModel,
        fields,
        endpoints: laravel_endpoints(name),
        description: None,
        source_file: source_file.to_owned(),
    }
}

/// The entity of a Laravel model file named `name`.
pub fn laravel_model_entity(name: &str, content: &str, source_file: &str) -> (res: SchemaEntity)
    ensures
        entity_parts(res) == (
            name@,
            EntityKind::LaravelModel,
            laravel_fields(content@),
            laravel_endpoints_spec(name@),
            None::<Seq<char>>,
            source_file@,
        ),
{
    let caps = captures_all("\\$fillable\\s*=\\s*\\[([^\\]]+)\\]", content);
    laravel_entity_from(name, &caps, source_file)
}

/// The pattern of a FastAPI (Pydantic) model class.
pub open spec fn fastapi_class_pattern() -> Seq<char> {
    "class\\s+(\\w+)\\s*\\([^)]*BaseModel[^)]*\\)"@
}

/// The pattern of a model field: four blanks, a name, `:` and a type.
pub open spec fn fastapi_field_pattern() -> Seq<char> {
    "\\s{4}(\\w+)\\s*:\\s*([\\w\\[\\], |]+)"@
}

/// A model's body: the text after its header up to the next model class, or,
/// when no model follows, its first 800 bytes.
pub open spec fn fastapi_body(after: Seq<char>) -> Seq<char> {
    match regex_prefix(fastapi_class_pattern(), after) {
        Some(p) => p,
        None => chars_within(after, 800),
    }
}

/// A model's body can be cut out: another model follows, or the text after the
/// header is at most 800 bytes long, or byte 800 falls between characters.
pub open spec fn fastapi_cut_ok(after: Seq<char>) -> bool {
    regex_prefix(fastapi_class_pattern(), after) is Some || chars_within(after, 800) == after
        || boundary_at(after, 800)
}

/// Every model body of a Python file can be cut out.
pub open spec fn fastapi_cuts_ok(content: Seq<char>) -> bool {
    let caps = regex_captures(fastapi_class_pattern(), content);
    forall|i: int| 0 <= i < caps.len() ==> fastapi_cut_ok(#[trigger] caps[i].1)
}

/// The fields of a model, from the field matches of its body: the name and the
/// type (trimmed), required.
pub open spec fn fastapi_fields(caps: Seq<(Seq<Option<Seq<char>>>, Seq<char>)>) -> Seq<(Seq<char>, Seq<char>, bool, Option<Seq<Seq<char>>>, Option<Seq<char>>, Option<Seq<char>>)> {
    caps.map_values(
        |f: (Seq<Option<Seq<char>>>, Seq<char>)| (group(f.0, 1), trim(group(f.0, 2)), true, None, None, None),
    )
}

/// The entity of the model `name`, given the field matches of its body.
pub open spec fn fastapi_entity_of(
    name: Seq<char>,
    caps: Seq<(Seq<Option<Seq<char>>>, Seq<char>)>,
    source: Seq<char>,
) -> (
    Seq<char>,
    EntityKind,
    Seq<(Seq<char>, Seq<char>, bool, Option<Seq<Seq<char>>>, Option<Seq<char>>, Option<Seq<char>>)>,
    Seq<(Seq<char>, Seq<char>, Option<Seq<char>>)>,
    Option<Seq<char>>,
    Seq<char>,
) {
    (name, EntityKind::FastApiModel, fastapi_fields(caps), seq![], None, source)
}

/// The entity of a model class match of a Python file.
pub open spec fn fastapi_entity(m: (Seq<Option<Seq<char>>>, Seq<char>), source: Seq<char>) -> (
    Seq<char>,
    EntityKind,
    Seq<(Seq<char>, Seq<char>, bool, Option<Seq<Seq<char>>>, Option<Seq<char>>, Option<Seq<char>>)>,
    Seq<(Seq<char>, Seq<char>, Option<Seq<char>>)>,
    Option<Seq<char>>,
    Seq<char>,
) {
    fastapi_entity_of(group(m.0, 1), regex_captures(fastapi_field_pattern(), fastapi_body(m.1)), source)
}

/// The entity of the model `name`, given the matches of the field pattern over
/// its body (see `fastapi_entity_of`).
pub fn fastapi_model_entity(
    name: &str,
    fields: &Vec<(Vec<Option<String>>, String)>,
    source_file: &str,
) -> (res: SchemaEntity)
    ensures
        entity_parts(res) == fastapi_entity_of(name@, fields.deep_view(), source_file@),
{
    let ghost fv = fields.deep_view();
    let mut out: Vec<SchemaField> = Vec::new();
    for i in 0..fields.len()
        invariant
            fv == fields.deep_view(),
            out@.map_values(|f: SchemaField| field_parts(f)) =~= fastapi_fields(fv.take(i as int)),
    {
        let t = group_text(&fields[i].0, 2);
        let f = SchemaField {
            name: group_text(&fields[i].0, 1),
            field_type: string_of(trim_chars(chars_of(t.as_str()).as_slice()).as_slice()),
            required: true,
            options: None,
            description: None,
            default: None,
        };
        let ghost before = out@;
        out.push(f);
        assert(out@.map_values(|f: SchemaField| field_parts(f)) =~= before.map_values(
            |f: SchemaField| field_parts(f),
        ).push(field_parts(f)));
        assert(fv.take(i + 1) =~= fv.take(i as int).push(fv[i as int]));
    }
    assert(fv.take(fields.len() as int) =~= fv);
    let e = SchemaEntity {
        name: name.to_owned(),
        kind: EntityKind::FastApiModel,
        fields: out,
        endpoints: Vec::new(),
        description: None,
        source_file: source_file.to_owned(),
    };
    assert(endpoints_view(e.endpoints@) =~= Seq::<(Seq<char>, Seq<char>, Option<Seq<char>>)>::empty());
    e
}

/// The model entities of a Python file: one per Pydantic model class, in order.
/// Every model body must be cuttable (`fastapi_cuts_ok`).
pub fn parse_fastapi_models(content: &str, source_file: &str) -> (res: Vec<SchemaEntity>)
    requires
        fastapi_cuts_ok(content@),
    ensures
        res@.map_values(|e: SchemaEntity| entity_parts(e)) == regex_captures(
            fastapi_class_pattern(),
            content@,
        ).map_values(|m: (Seq<Option<Seq<char>>>, Seq<char>)| fastapi_entity(m, source_file@)),
{
    let classes = captures_all("class\\s+(\\w+)\\s*\\([^)]*BaseModel[^)]*\\)", content);
    let mut out: Vec<SchemaEntity> = Vec::new();
    for i in 0..classes.len()
        invariant
            classes.deep_view() == regex_captures(fastapi_class_pattern(), content@),
            fastapi_cuts_ok(content@),
            out@.map_values(|e: SchemaEntity| entity_parts(e)) =~= classes.deep_view().take(i as int).map_values(
                |m: (Seq<Option<Seq<char>>>, Seq<char>)| fastapi_entity(m, source_file@),
            ),
    {
        let name = group_text(&classes[i].0, 1);
        let after = &classes[i].1;
        assert(fastapi_cut_ok(classes.deep_view()[i as int].1));
        let body = match prefix_before_match("class\\s+(\\w+)\\s*\\([^)]*BaseModel[^)]*\\)", after.as_str()) {
            Some(p) => p,
            None => match first_bytes(after.as_str(), 800) {
                Some(t) => t,
                None => after.clone(),
            },
        };
        assert(body@ == fastapi_body(after@));
        let caps = captures_all("\\s{4}(\\w+)\\s*:\\s*([\\w\\[\\], |]+)", body.as_str());
        let e = fastapi_model_entity(name.as_str(), &caps, source_file);
        let ghost before = out@;
        out.push(e);
        assert(entity_parts(e) == fastapi_entity(classes.deep_view()[i as int], source_file@));
        assert(out@.map_values(|e: SchemaEntity| entity_parts(e)) =~= before.map_values(
            |e: SchemaEntity| entity_parts(e),
        ).push(entity_parts(e)));
        assert(classes.deep_view().take(i + 1) =~= classes.deep_view().take(i as int).push(
            classes.deep_view()[i as int],
        ));
    }
    assert(classes.deep_view().take(classes.len() as int) =~= classes.deep_view());
    out
}

/// The model entities of a Python file (see `parse_fastapi_models`), or `None`
/// when some model body cannot be cut out: no model follows it and byte 800
/// of the text after its header falls inside a character.
pub fn try_parse_fastapi_models(content: &str, source_file: &str) -> (res: Option<Vec<SchemaEntity>>)
    ensures
        res is Some <==> fastapi_cuts_ok(content@),
        res matches Some(v) ==> v@.map_values(|e: SchemaEntity| entity_parts(e)) == regex_captures(
            fastapi_class_pattern(),
            content@,
        ).map_values(|m: (Seq<Option<Seq<char>>>, Seq<char>)| fastapi_entity(m, source_file@)),
{
    let classes = captures_all("class\\s+(\\w+)\\s*\\([^)]*BaseModel[^)]*\\)", content);
    let ghost cv = classes.deep_view();
    for i in 0..classes.len()
        invariant
            cv == classes.deep_view(),
            cv == regex_captures(fastapi_class_pattern(), content@),
            forall|j: int| 0 <= j < i ==> fastapi_cut_ok(#[trigger] cv[j].1),
    {
        let after = &classes[i].1;
        assert(cv[i as int].1 == after@);
        if prefix_before_match("class\\s+(\\w+)\\s*\\([^)]*BaseModel[^)]*\\)", after.as_str()).is_none() {
            if first_bytes(after.as_str(), 800).is_none() {
                assert(!fastapi_cut_ok(cv[i as int].1));
                return None;
            }
        }
    }
    Some(parse_fastapi_models(content, source_file))
}

/// The pattern of a FastAPI route decorator.
pub open spec fn fastapi_route_pattern() -> Seq<char> {
    "@(?:app|router)\\.(get|post|put|patch|delete)\\s*\\(\\s*[\"']([^\"']+)[\"']"@
}

/// The pattern of an Express route registration.
pub open spec fn express_route_pattern() -> Seq<char> {
    "(?:router|app)\\.(get|post|put|patch|delete)\\s*\\(\\s*[\"'`]([^\"'`]+)[\"'`]"@
}

/// The endpoints that route registrations matching `pattern` declare: the
/// method upper-cased and the path.
pub open spec fn route_endpoints(pattern: Seq<char>, content: Seq<char>) -> Seq<(Seq<char>, Seq<char>, Option<Seq<char>>)> {
    route_endpoints_of(regex_captures(pattern, content))
}

/// The endpoints of route matches: group 1 is the method, upper-cased, and
/// group 2 the path.
pub open spec fn route_endpoints_of(caps: Seq<(Seq<Option<Seq<char>>>, Seq<char>)>) -> Seq<(Seq<char>, Seq<char>, Option<Seq<char>>)> {
    caps.map_values(
        |m: (Seq<Option<Seq<char>>>, Seq<char>)| (uppercased(group(m.0, 1)), group(m.0, 2), None),
    )
}

/// The endpoints of route matches (see `route_endpoints_of`).
pub fn endpoints_from_routes(caps: &Vec<(Vec<Option<String>>, String)>) -> (res: Vec<InferredEndpoint>)
    ensures
        endpoints_view(res@) == route_endpoints_of(caps.deep_view()),
{
    let mut out: Vec<InferredEndpoint> = Vec::new();
    for i in 0..caps.len()
        invariant
            endpoints_view(out@) =~= caps.deep_view().take(i as int).map_values(
                |m: (Seq<Option<Seq<char>>>, Seq<char>)| (uppercased(group(m.0, 1)), group(m.0, 2), None::<Seq<char>>),
            ),
    {
        let method = group_text(&caps[i].0, 1);
        let e = InferredEndpoint {
            method: to_uppercase(method.as_str()),
            path: group_text(&caps[i].0, 2),
            description: None,
        };
        let ghost before = out@;
        out.push(e);
        assert(endpoints_view(out@) =~= endpoints_view(before).push(endpoint_parts(e)));
        assert(caps.deep_view().take(i + 1) =~= caps.deep_view().take(i as int).push(
            caps.deep_view()[i as int],
        ));
    }
    assert(caps.deep_view().take(caps.len() as int) =~= caps.deep_view());
    out
}

/// The endpoints that a Python file's FastAPI route decorators declare.
pub fn fastapi_routes(content: &str) -> (res: Vec<InferredEndpoint>)
    ensures
        endpoints_view(res@) == route_endpoints(fastapi_route_pattern(), content@),
{
    let caps = captures_all(
        "@(?:app|router)\\.(get|post|put|patch|delete)\\s*\\(\\s*[\"']([^\"']+)[\"']",
        content,
    );
    endpoints_from_routes(&caps)
}

/// The endpoints that a JavaScript file's Express route registrations declare.
pub fn express_routes(content: &str) -> (res: Vec<InferredEndpoint>)
    ensures
        endpoints_view(res@) == route_endpoints(express_route_pattern(), content@),
{
    let caps = captures_all(
        "(?:router|app)\\.(get|post|put|patch|delete)\\s*\\(\\s*[\"'`]([^\"'`]+)[\"'`]",
        content,
    );
    endpoints_from_routes(&caps)
}

// ---------------------------------------------------------------------------
// The frameworks the explorer knows
// ---------------------------------------------------------------------------

/// A framework that the explorer knows, for the user to pick.
pub struct FrameworkInfo {
    pub id: String,
    pub name: String,
    pub description: String,
    pub detection_hints: Vec<String>,
}

/// The parts of a framework description.
pub open spec fn framework_parts(f: FrameworkInfo) -> (Seq<char>, Seq<char>, Seq<char>, Seq<Seq<char>>) {
    (f.id@, f.name@, f.description@, f.detection_hints.deep_view())
}

/// The frameworks, in the order they are listed.
pub open spec fn frameworks_spec() -> Seq<(Seq<char>, Seq<char>, Seq<char>, Seq<Seq<char>>)> {
    seq![
        ("frappe"@, "Frappe / ERPNext"@, "Crawls DocType JSON files to build entity map and REST endpoints"@,
            seq!["hooks.py"@, "doctype/ folder"@, "sites/ folder"@]),
        ("django"@, "Django"@, "Parses models.py files for model classes and infers DRF endpoints"@,
            seq!["manage.py"@, "models.py"@]),
        ("laravel"@, "Laravel"@, "Reads app/Models/*.php $fillable arrays for field discovery"@,
            seq!["artisan"@, "app/Models/"@]),
        ("rails"@, "Ruby on Rails"@, "Parses db/schema.rb for table definitions"@,
            seq!["Gemfile"@, "db/schema.rb"@]),
        ("openapi"@, "OpenAPI / Swagger"@, "Parses openapi.yaml/swagger.json for full schema + endpoint map"@,
            seq!["openapi.yaml"@, "swagger.json"@]),
        ("fastapi"@, "FastAPI"@, "Reads @app/@router route decorators in Python files for endpoints"@,
            seq!["FastAPI()"@, "from fastapi"@]),
        ("express"@, "Express.js"@, "Parses app/router route registrations in JavaScript files"@,
            seq!["package.json with express"@]),
    ]
}

fn framework(id: &str, name: &str, description: &str, hints: Vec<&str>) -> (res: FrameworkInfo)
    ensures
        framework_parts(res) == (id@, name@, description@, hints@.map_values(|h: &str| h@)),
{
    let mut hs: Vec<String> = Vec::new();
    for i in 0..hints.len()
        invariant
            hs.deep_view() =~= hints@.take(i as int).map_values(|h: &str| h@),
    {
        let ghost before = hs.deep_view();
        let h = hints[i].to_owned();
        hs.push(h);
        assert(hs.deep_view() =~= before.push(h@));
        assert(hints@.take(i + 1).map_values(|h: &str| h@) =~= hints@.take(i as int).map_values(
            |h: &str| h@,
        ).push(hints@[i as int]@));
    }
    assert(hints@.take(hints.len() as int) =~= hints@);
    FrameworkInfo {
        id: id.to_owned(),
        name: name.to_owned(),
        description: description.to_owned(),
        detection_hints: hs,
    }
}

/// The id under which the explorer reports a framework.
pub open spec fn framework_id(f: Framework) -> Seq<char> {
    match f {
        Framework::OpenApi => "openapi"@,
        Framework::Frappe => "frappe"@,
        Framework::Django => "django"@,
        Framework::Laravel => "laravel"@,
        Framework::Rails => "rails"@,
        Framework::FastApi => "fastapi"@,
        Framework::Express => "express"@,
        Framework::Unknown => "unknown"@,
    }
}

/// The frameworks listed for the user are exactly those the explorer can
/// recognise: each listed id names one of them, each of them is listed, and no
/// id is listed twice.
pub proof fn law_listed_frameworks_are_explorable()
    ensures
        forall|i: int| #![trigger frameworks_spec()[i]] 0 <= i < frameworks_spec().len() ==> exists|f: Framework|
            f != Framework::Unknown && #[trigger] framework_id(f) == frameworks_spec()[i].0,
        forall|f: Framework| #![trigger framework_id(f)] f != Framework::Unknown ==> exists|i: int|
            0 <= i < frameworks_spec().len() && #[trigger] frameworks_spec()[i].0 == framework_id(f),
        forall|i: int, j: int| 0 <= i < j < frameworks_spec().len() ==>
            #[trigger] frameworks_spec()[i].0 != #[trigger] frameworks_spec()[j].0,
{
    reveal_strlit("openapi");
    reveal_strlit("frappe");
    reveal_strlit("django");
    reveal_strlit("laravel");
    reveal_strlit("rails");
    reveal_strlit("fastapi");
    reveal_strlit("express");
    let fs = frameworks_spec();
    assert(fs[0].0 == framework_id(Framework::Frappe));
    assert(fs[1].0 == framework_id(Framework::Django));
    assert(fs[2].0 == framework_id(Framework::Laravel));
    assert(fs[3].0 == framework_id(Framework::Rails));
    assert(fs[4].0 == framework_id(Framework::OpenApi));
    assert(fs[5].0 == framework_id(Framework::FastApi));
    assert(fs[6].0 == framework_id(Framework::Express));
    assert forall|f: Framework| #![trigger framework_id(f)] f != Framework::Unknown implies exists|i: int|
        0 <= i < fs.len() && #[trigger] fs[i].0 == framework_id(f) by {
        match f {
            Framework::Frappe => assert(fs[0].0 == framework_id(f)),
            Framework::Django => assert(fs[1].0 == framework_id(f)),
            Framework::Laravel => assert(fs[2].0 == framework_id(f)),
            Framework::Rails => assert(fs[3].0 == framework_id(f)),
            Framework::OpenApi => assert(fs[4].0 == framework_id(f)),
            Framework::FastApi => assert(fs[5].0 == framework_id(f)),
            Framework::Express => assert(fs[6].0 == framework_id(f)),
            Framework::Unknown => {},
        }
    }
    assert forall|i: int, j: int| 0 <= i < j < fs.len() implies #[trigger] fs[i].0 != #[trigger] fs[j].0 by {
        assert(fs[i].0.len() != fs[j].0.len() || fs[i].0[0] != fs[j].0[0] || fs[i].0[1] != fs[j].0[1]);
    }
}

/// The frameworks that the explorer knows (see `frameworks_spec`).
pub fn list_frameworks() -> (res: Vec<FrameworkInfo>)
    ensures
        res@.map_values(|f: FrameworkInfo| framework_parts(f)) == frameworks_spec(),
{
    let mut v: Vec<FrameworkInfo> = Vec::new();
    let f0 = framework(
        "frappe",
        "Frappe / ERPNext",
        "Crawls DocType JSON files to build entity map and REST endpoints",
        vec!["hooks.py", "doctype/ folder", "sites/ folder"],
    );
    let f1 = framework(
        "django",
        "Django",
        "Parses models.py files for model classes and infers DRF endpoints",
        vec!["manage.py", "models.py"],
    );
    let f2 = framework(
        "laravel",
        "Laravel",
        "Reads app/Models/*.php $fillable arrays for field discovery",
        vec!["artisan", "app/Models/"],
    );
    let f3 = framework(
        "rails",
        "Ruby on Rails",
        "Parses db/schema.rb for table definitions",
        vec!["Gemfile", "db/schema.rb"],
    );
    let f4 = framework(
        "openapi",
        "OpenAPI / Swagger",
        "Parses openapi.yaml/swagger.json for full schema + endpoint map",
        vec!["openapi.yaml", "swagger.json"],
    );
    let f5 = framework(
        "fastapi",
        "FastAPI",
        "Reads @app/@router route decorators in Python files for endpoints",
        vec!["FastAPI()", "from fastapi"],
    );
    let f6 = framework(
        "express",
        "Express.js",
        "Parses app/router route registrations in JavaScript files",
        vec!["package.json with express"],
    );
    assert(f0.detection_hints.deep_view() =~= seq!["hooks.py"@, "doctype/ folder"@, "sites/ folder"@]);
    assert(f1.detection_hints.deep_view() =~= seq!["manage.py"@, "models.py"@]);
    assert(f2.detection_hints.deep_view() =~= seq!["artisan"@, "app/Models/"@]);
    assert(f3.detection_hints.deep_view() =~= seq!["Gemfile"@, "db/schema.rb"@]);
    assert(f4.detection_hints.deep_view() =~= seq!["openapi.yaml"@, "swagger.json"@]);
    assert(f5.detection_hints.deep_view() =~= seq!["FastAPI()"@, "from fastapi"@]);
    assert(f6.detection_hints.deep_view() =~= seq!["package.json with express"@]);
    v.push(f0);
    v.push(f1);
    v.push(f2);
    v.push(f3);
    v.push(f4);
    v.push(f5);
    v.push(f6);
    assert(v@.map_values(|f: FrameworkInfo| framework_parts(f)) =~= frameworks_spec());
    v
}

} // verus!
