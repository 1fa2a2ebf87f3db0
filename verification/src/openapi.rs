//! Endpoints from an OpenAPI 3.x document.
//!
//! `openapiv3` parses the document; the library reads what it needs of it into
//! a plain model (`SpecDocument`) and derives the endpoints from that model:
//! which operations become endpoints, in which order, which parameters count
//! as required, and which response status and body schema are expected.

use vstd::prelude::*;
use crate::engine::{EndpointParam, ParamLocation, ParsedEndpoint};
use crate::text::{has_prefix, owned, same_text, starts_with};
use openapiv3::{
    OpenAPI, Operation, Parameter, ParameterSchemaOrContent, PathItem, ReferenceOr, Response, Schema,
    StatusCode,
};
use serde_json::Value;

verus! {

/// Why an OpenAPI document could not be turned into endpoints.
#[derive(Debug)]
pub enum SchemaError {
    IoError { path: std::path::PathBuf, source: std::io::Error },
    YamlParse(serde_yaml::Error),
    JsonParse(serde_json::Error),
    UnsupportedVersion { version: String },
    Invalid(String),
}

// ----------------------------------------------------------------------------
// The plain model of a document.

/// A parameter as the document declares it.
#[derive(Debug, Clone)]
pub struct SpecParameter {
    pub location: ParamLocation,
    pub name: String,
    /// The `required` field as written (path parameters are required whatever it says).
    pub required: bool,
    /// The parameter's schema as JSON, where it is given inline.
    pub schema: Option<Value>,
}

/// A key of a responses map.
#[derive(Debug, Clone, Copy, PartialEq, Eq, Structural)]
pub enum StatusKey {
    /// An exact status code, such as `200`.
    Code(u16),
    /// A range such as `2XX`, by its first digit.
    Range(u16),
}

/// One media type of a response's content.
#[derive(Debug, Clone)]
pub struct MediaEntry {
    pub media_type: String,
    /// The body schema as JSON, where it is given inline.
    pub schema: Option<Value>,
}

/// One entry of a responses map.
#[derive(Debug, Clone)]
pub struct ResponseEntry {
    pub status: StatusKey,
    /// The response's content by media type, in document order; `None` where
    /// the response is a `$ref`.
    pub content: Option<Vec<MediaEntry>>,
}

/// An operation: its parameters (`None` for a `$ref`) and responses, in
/// document order.
#[derive(Debug, Clone)]
pub struct SpecOperation {
    pub parameters: Vec<Option<SpecParameter>>,
    pub responses: Vec<ResponseEntry>,
}

/// The operations of a path item, by method.
#[derive(Debug, Clone)]
pub struct SpecPathItem {
    pub get: Option<SpecOperation>,
    pub put: Option<SpecOperation>,
    pub post: Option<SpecOperation>,
    pub delete: Option<SpecOperation>,
    pub options: Option<SpecOperation>,
    pub head: Option<SpecOperation>,
    pub patch: Option<SpecOperation>,
}

/// One entry of the paths map; `item` is `None` where the path item is a `$ref`.
#[derive(Debug, Clone)]
pub struct PathEntry {
    pub path: String,
    pub item: Option<SpecPathItem>,
}

/// What the library reads of an OpenAPI document.
#[derive(Debug, Clone)]
pub struct SpecDocument {
    /// The `openapi` version field.
    pub openapi: String,
    /// The paths map, in document order.
    pub paths: Vec<PathEntry>,
}

// ----------------------------------------------------------------------------
// Views of the model.

/// The view of an optional value.
pub open spec fn opt_view<T: View>(o: Option<T>) -> Option<T::V> {
    match o {
        Some(t) => Some(t@),
        None => None,
    }
}

/// What a declared parameter says.
pub struct SpecParameterView {
    pub location: ParamLocation,
    pub name: Seq<char>,
    pub required: bool,
    pub schema: Option<Value>,
}

impl View for SpecParameter {
    type V = SpecParameterView;

    open spec fn view(&self) -> SpecParameterView {
        SpecParameterView {
            location: self.location,
            name: self.name@,
            required: self.required,
            schema: self.schema,
        }
    }
}

/// What a media entry says.
pub struct MediaEntryView {
    pub media_type: Seq<char>,
    pub schema: Option<Value>,
}

impl View for MediaEntry {
    type V = MediaEntryView;

    open spec fn view(&self) -> MediaEntryView {
        MediaEntryView { media_type: self.media_type@, schema: self.schema }
    }
}

/// The views of a list of media entries.
pub open spec fn media_views(ms: Seq<MediaEntry>) -> Seq<MediaEntryView> {
    ms.map_values(|m: MediaEntry| m@)
}

/// What a responses-map entry says.
pub struct ResponseEntryView {
    pub status: StatusKey,
    pub content: Option<Seq<MediaEntryView>>,
}

impl View for ResponseEntry {
    type V = ResponseEntryView;

    open spec fn view(&self) -> ResponseEntryView {
        ResponseEntryView {
            status: self.status,
            content: match self.content {
                Some(c) => Some(media_views(c@)),
                None => None,
            },
        }
    }
}

/// The views of a list of responses-map entries.
pub open spec fn response_views(rs: Seq<ResponseEntry>) -> Seq<ResponseEntryView> {
    rs.map_values(|r: ResponseEntry| r@)
}

/// The views of a list of optional parameters.
pub open spec fn parameter_views(ps: Seq<Option<SpecParameter>>) -> Seq<Option<SpecParameterView>> {
    ps.map_values(|p: Option<SpecParameter>| opt_view(p))
}

/// What an operation says.
pub struct SpecOperationView {
    pub parameters: Seq<Option<SpecParameterView>>,
    pub responses: Seq<ResponseEntryView>,
}

impl View for SpecOperation {
    type V = SpecOperationView;

    open spec fn view(&self) -> SpecOperationView {
        SpecOperationView {
            parameters: parameter_views(self.parameters@),
            responses: response_views(self.responses@),
        }
    }
}

/// What a path item says.
pub struct SpecPathItemView {
    pub get: Option<SpecOperationView>,
    pub put: Option<SpecOperationView>,
    pub post: Option<SpecOperationView>,
    pub delete: Option<SpecOperationView>,
    pub options: Option<SpecOperationView>,
    pub head: Option<SpecOperationView>,
    pub patch: Option<SpecOperationView>,
}

impl View for SpecPathItem {
    type V = SpecPathItemView;

    open spec fn view(&self) -> SpecPathItemView {
        SpecPathItemView {
            get: opt_view(self.get),
            put: opt_view(self.put),
            post: opt_view(self.post),
            delete: opt_view(self.delete),
            options: opt_view(self.options),
            head: opt_view(self.head),
            patch: opt_view(self.patch),
        }
    }
}

/// What a paths-map entry says.
pub struct PathEntryView {
    pub path: Seq<char>,
    pub item: Option<SpecPathItemView>,
}

impl View for PathEntry {
    type V = PathEntryView;

    open spec fn view(&self) -> PathEntryView {
        PathEntryView { path: self.path@, item: opt_view(self.item) }
    }
}

/// The views of a list of paths-map entries.
pub open spec fn path_views(ps: Seq<PathEntry>) -> Seq<PathEntryView> {
    ps.map_values(|p: PathEntry| p@)
}

/// What a document model says.
pub struct SpecDocumentView {
    pub openapi: Seq<char>,
    pub paths: Seq<PathEntryView>,
}

impl View for SpecDocument {
    type V = SpecDocumentView;

    open spec fn view(&self) -> SpecDocumentView {
        SpecDocumentView { openapi: self.openapi@, paths: path_views(self.paths@) }
    }
}

// ----------------------------------------------------------------------------
// Views of endpoints.

/// What an endpoint parameter says.
pub struct EndpointParamView {
    pub name: Seq<char>,
    pub location: ParamLocation,
    pub required: bool,
    pub schema: Option<Value>,
}

impl View for EndpointParam {
    type V = EndpointParamView;

    open spec fn view(&self) -> EndpointParamView {
        EndpointParamView {
            name: self.name@,
            location: self.location,
            required: self.required,
            schema: self.schema,
        }
    }
}

/// What a parsed endpoint says.
pub struct ParsedEndpointView {
    pub method: Seq<char>,
    pub path: Seq<char>,
    pub parameters: Seq<EndpointParamView>,
    pub expected_status: u16,
    pub response_schema: Option<Value>,
}

impl View for ParsedEndpoint {
    type V = ParsedEndpointView;

    open spec fn view(&self) -> ParsedEndpointView {
        ParsedEndpointView {
            method: self.method@,
            path: self.path@,
            parameters: self.parameters@.map_values(|p: EndpointParam| p@),
            expected_status: self.expected_status,
            response_schema: self.response_schema,
        }
    }
}

/// The views of a list of endpoints.
pub open spec fn endpoint_views(eps: Seq<ParsedEndpoint>) -> Seq<ParsedEndpointView> {
    eps.map_values(|e: ParsedEndpoint| e@)
}

// ----------------------------------------------------------------------------
// The rules.

/// The OpenAPI versions supported: 3.0.x and 3.1.x.
pub open spec fn supported_version(v: Seq<char>) -> bool {
    has_prefix(v, "3.0"@) || has_prefix(v, "3.1"@)
}

/// The endpoint parameter a declared parameter gives: path parameters are
/// always required.
pub open spec fn param_view(p: SpecParameterView) -> EndpointParamView {
    EndpointParamView {
        name: p.name,
        location: p.location,
        required: p.location == ParamLocation::Path || p.required,
        schema: p.schema,
    }
}

/// The endpoint parameters of an operation: its inline parameters, in order.
pub open spec fn params_view(ps: Seq<Option<SpecParameterView>>) -> Seq<EndpointParamView>
    decreases ps.len(),
{
    if ps.len() == 0 {
        Seq::empty()
    } else {
        let rest = params_view(ps.drop_last());
        match ps.last() {
            Some(p) => rest.push(param_view(p)),
            None => rest,
        }
    }
}

/// The entry of a responses map for exact status `code`, if any.
pub open spec fn find_response(rs: Seq<ResponseEntryView>, code: u16) -> Option<ResponseEntryView>
    decreases rs.len(),
{
    if rs.len() == 0 {
        None
    } else if rs[0].status == StatusKey::Code(code) {
        Some(rs[0])
    } else {
        find_response(rs.drop_first(), code)
    }
}

/// The schema of the `application/json` content, if there is one.
pub open spec fn json_schema(media: Seq<MediaEntryView>) -> Option<Value>
    decreases media.len(),
{
    if media.len() == 0 {
        None
    } else if media[0].media_type == "application/json"@ {
        media[0].schema
    } else {
        json_schema(media.drop_first())
    }
}

/// The inline response for exact status `code`, if any.
pub open spec fn inline_response(rs: Seq<ResponseEntryView>, code: u16) -> Option<Seq<MediaEntryView>> {
    match find_response(rs, code) {
        Some(e) => e.content,
        None => None,
    }
}

/// The expected status and body schema of an operation: the first of 200,
/// 201 and 204 with an inline response, with its `application/json` schema;
/// otherwise 200 and no schema.
pub open spec fn expected_response(rs: Seq<ResponseEntryView>) -> (u16, Option<Value>) {
    match inline_response(rs, 200) {
        Some(c) => (200, json_schema(c)),
        None => match inline_response(rs, 201) {
            Some(c) => (201, json_schema(c)),
            None => match inline_response(rs, 204) {
                Some(c) => (204, json_schema(c)),
                None => (200, None),
            },
        },
    }
}

/// The endpoint an operation gives.
pub open spec fn operation_endpoint(path: Seq<char>, method: Seq<char>, op: SpecOperationView) -> ParsedEndpointView {
    let (status, schema) = expected_response(op.responses);
    ParsedEndpointView {
        method,
        path,
        parameters: params_view(op.parameters),
        expected_status: status,
        response_schema: schema,
    }
}

/// The endpoint of an operation slot, where the slot holds one.
pub open spec fn slot_endpoint(path: Seq<char>, method: Seq<char>, op: Option<SpecOperationView>) -> Seq<ParsedEndpointView> {
    match op {
        Some(o) => seq![operation_endpoint(path, method, o)],
        None => Seq::empty(),
    }
}

/// The endpoints of a path item, in the order GET, POST, PUT, DELETE, PATCH,
/// HEAD, OPTIONS.
pub open spec fn item_endpoints(path: Seq<char>, item: SpecPathItemView) -> Seq<ParsedEndpointView> {
    slot_endpoint(path, "GET"@, item.get) + slot_endpoint(path, "POST"@, item.post) + slot_endpoint(
        path,
        "PUT"@,
        item.put,
    ) + slot_endpoint(path, "DELETE"@, item.delete) + slot_endpoint(path, "PATCH"@, item.patch)
        + slot_endpoint(path, "HEAD"@, item.head) + slot_endpoint(path, "OPTIONS"@, item.options)
}

/// The endpoints of a paths map, path by path; `$ref` path items give none.
pub open spec fn document_endpoints(paths: Seq<PathEntryView>) -> Seq<ParsedEndpointView>
    decreases paths.len(),
{
    if paths.len() == 0 {
        Seq::empty()
    } else {
        document_endpoints(paths.drop_last()) + match paths.last().item {
            Some(item) => item_endpoints(paths.last().path, item),
            None => Seq::empty(),
        }
    }
}

/// The shape every endpoint taken from a document has: its method is one of
/// GET, POST, PUT, DELETE, PATCH, HEAD and OPTIONS, its expected status is
/// 200, 201 or 204, and each of its path parameters is required.
pub open spec fn endpoint_well_formed(e: ParsedEndpointView) -> bool {
    &&& (e.method == "GET"@ || e.method == "POST"@ || e.method == "PUT"@ || e.method == "DELETE"@
        || e.method == "PATCH"@ || e.method == "HEAD"@ || e.method == "OPTIONS"@)
    &&& (e.expected_status == 200 || e.expected_status == 201 || e.expected_status == 204)
    &&& forall|j: int|
        0 <= j < e.parameters.len() && (#[trigger] e.parameters[j]).location == ParamLocation::Path
            ==> e.parameters[j].required
}

/// Path parameters are required whatever the document says.
pub proof fn lemma_path_params_required(ps: Seq<Option<SpecParameterView>>)
    ensures
        forall|j: int|
            0 <= j < params_view(ps).len() && (#[trigger] params_view(ps)[j]).location
                == ParamLocation::Path ==> params_view(ps)[j].required,
    decreases ps.len(),
{
    if ps.len() > 0 {
        lemma_path_params_required(ps.drop_last());
    }
}

/// Every endpoint a document gives has the shape `endpoint_well_formed` describes.
pub proof fn lemma_document_endpoints_well_formed(paths: Seq<PathEntryView>)
    ensures
        forall|i: int|
            0 <= i < document_endpoints(paths).len() ==> endpoint_well_formed(
                #[trigger] document_endpoints(paths)[i],
            ),
    decreases paths.len(),
{
    if paths.len() > 0 {
        lemma_document_endpoints_well_formed(paths.drop_last());
        let prev = document_endpoints(paths.drop_last());
        let last = paths.last();
        match last.item {
            Some(item) => {
                let p = last.path;
                let tail = item_endpoints(p, item);
                assert forall|i: int| 0 <= i < tail.len() implies endpoint_well_formed(
                    #[trigger] tail[i],
                ) by {
                    lemma_slot_well_formed(p, "GET"@, item.get);
                    lemma_slot_well_formed(p, "POST"@, item.post);
                    lemma_slot_well_formed(p, "PUT"@, item.put);
                    lemma_slot_well_formed(p, "DELETE"@, item.delete);
                    lemma_slot_well_formed(p, "PATCH"@, item.patch);
                    lemma_slot_well_formed(p, "HEAD"@, item.head);
                    lemma_slot_well_formed(p, "OPTIONS"@, item.options);
                    lemma_concat_well_formed(
                        slot_endpoint(p, "GET"@, item.get),
                        slot_endpoint(p, "POST"@, item.post),
                    );
                    let a2 = slot_endpoint(p, "GET"@, item.get) + slot_endpoint(p, "POST"@, item.post);
                    lemma_concat_well_formed(a2, slot_endpoint(p, "PUT"@, item.put));
                    let a3 = a2 + slot_endpoint(p, "PUT"@, item.put);
                    lemma_concat_well_formed(a3, slot_endpoint(p, "DELETE"@, item.delete));
                    let a4 = a3 + slot_endpoint(p, "DELETE"@, item.delete);
                    lemma_concat_well_formed(a4, slot_endpoint(p, "PATCH"@, item.patch));
                    let a5 = a4 + slot_endpoint(p, "PATCH"@, item.patch);
                    lemma_concat_well_formed(a5, slot_endpoint(p, "HEAD"@, item.head));
                    let a6 = a5 + slot_endpoint(p, "HEAD"@, item.head);
                    lemma_concat_well_formed(a6, slot_endpoint(p, "OPTIONS"@, item.options));
                }
                lemma_concat_well_formed(prev, tail);
            },
            None => {
                lemma_concat_well_formed(prev, Seq::empty());
            },
        }
    }
}

/// Endpoints of an operation slot are well formed for the seven methods.
proof fn lemma_slot_well_formed(path: Seq<char>, method: Seq<char>, op: Option<SpecOperationView>)
    requires
        method == "GET"@ || method == "POST"@ || method == "PUT"@ || method == "DELETE"@ || method
            == "PATCH"@ || method == "HEAD"@ || method == "OPTIONS"@,
    ensures
        forall|i: int|
            0 <= i < slot_endpoint(path, method, op).len() ==> endpoint_well_formed(
                #[trigger] slot_endpoint(path, method, op)[i],
            ),
{
    if let Some(o) = op {
        lemma_path_params_required(o.parameters);
        assert(slot_endpoint(path, method, op)[0] == operation_endpoint(path, method, o));
    }
}

/// A concatenation of well-formed endpoint lists is well formed.
proof fn lemma_concat_well_formed(a: Seq<ParsedEndpointView>, b: Seq<ParsedEndpointView>)
    requires
        forall|i: int| 0 <= i < a.len() ==> endpoint_well_formed(#[trigger] a[i]),
        forall|i: int| 0 <= i < b.len() ==> endpoint_well_formed(#[trigger] b[i]),
    ensures
        forall|i: int| 0 <= i < (a + b).len() ==> endpoint_well_formed(#[trigger] (a + b)[i]),
{
    assert forall|i: int| 0 <= i < (a + b).len() implies endpoint_well_formed(#[trigger] (a + b)[i]) by {
        if i < a.len() {
            assert((a + b)[i] == a[i]);
        } else {
            assert((a + b)[i] == b[i - a.len()]);
        }
    }
}

/// `rs[i]` is the first entry of the responses map whose key is exact status
/// `code`.
pub open spec fn first_with_status(rs: Seq<ResponseEntryView>, code: u16, i: int) -> bool {
    &&& 0 <= i < rs.len()
    &&& rs[i].status == StatusKey::Code(code)
    &&& forall|j: int| 0 <= j < i ==> (#[trigger] rs[j]).status != StatusKey::Code(code)
}

/// The responses map holds an inline response (not a `$ref`) for exact
/// status `code`: the first entry keyed `code` has content.
pub open spec fn has_inline(rs: Seq<ResponseEntryView>, code: u16) -> bool {
    exists|i: int| #[trigger] first_with_status(rs, code, i) && rs[i].content is Some
}

/// The content of the inline response for exact status `code`, where
/// `has_inline(rs, code)` holds.
pub open spec fn inline_content(rs: Seq<ResponseEntryView>, code: u16) -> Seq<MediaEntryView> {
    let i = choose|i: int| #[trigger] first_with_status(rs, code, i) && rs[i].content is Some;
    rs[i].content.unwrap()
}

/// The lookup by status finds the first entry with that key, and nothing
/// where no entry has it.
proof fn lemma_find_response_first(rs: Seq<ResponseEntryView>, code: u16)
    ensures
        forall|i: int| #[trigger] first_with_status(rs, code, i) ==> find_response(rs, code) == Some(rs[i]),
        (forall|j: int| 0 <= j < rs.len() ==> (#[trigger] rs[j]).status != StatusKey::Code(code))
            ==> find_response(rs, code) is None,
        find_response(rs, code) is Some ==> exists|i: int| #[trigger] first_with_status(rs, code, i),
    decreases rs.len(),
{
    if rs.len() > 0 {
        let tail = rs.drop_first();
        lemma_find_response_first(tail, code);
        if rs[0].status == StatusKey::Code(code) {
            assert(first_with_status(rs, code, 0));
            assert forall|i: int| #[trigger] first_with_status(rs, code, i) implies i == 0 by {
                if i > 0 {
                    assert(rs[0].status != StatusKey::Code(code));
                }
            }
        } else {
            assert forall|i: int| #[trigger] first_with_status(rs, code, i) implies find_response(rs, code)
                == Some(rs[i]) by {
                assert(i > 0);
                assert forall|j: int| 0 <= j < i - 1 implies (#[trigger] tail[j]).status != StatusKey::Code(
                    code,
                ) by {
                    assert(tail[j] == rs[j + 1]);
                }
                assert(tail[i - 1] == rs[i]);
                assert(first_with_status(tail, code, i - 1));
            }
            if forall|j: int| 0 <= j < rs.len() ==> (#[trigger] rs[j]).status != StatusKey::Code(code) {
                assert forall|j: int| 0 <= j < tail.len() implies (#[trigger] tail[j]).status
                    != StatusKey::Code(code) by {
                    assert(tail[j] == rs[j + 1]);
                }
            }
            if find_response(rs, code) is Some {
                let k = choose|k: int| #[trigger] first_with_status(tail, code, k);
                assert forall|j: int| 0 <= j < k + 1 implies (#[trigger] rs[j]).status != StatusKey::Code(
                    code,
                ) by {
                    if j > 0 {
                        assert(rs[j] == tail[j - 1]);
                    }
                }
                assert(rs[k + 1] == tail[k]);
                assert(first_with_status(rs, code, k + 1));
            }
        }
    }
}

/// Which response an operation is checked against: status 200 whenever its
/// responses map has an inline response for exact status 200; 201 only when
/// 200 has none and 201 has one; 204 only when neither 200 nor 201 has one
/// and 204 does; and 200 with no body schema when none of the three has one.
/// The body schema is the `application/json` schema of the chosen response.
pub proof fn lemma_expected_status_order(rs: Seq<ResponseEntryView>)
    ensures
        has_inline(rs, 200) ==> expected_response(rs) == (200u16, json_schema(inline_content(rs, 200))),
        !has_inline(rs, 200) && has_inline(rs, 201) ==> expected_response(rs) == (
            201u16,
            json_schema(inline_content(rs, 201)),
        ),
        !has_inline(rs, 200) && !has_inline(rs, 201) && has_inline(rs, 204) ==> expected_response(rs) == (
            204u16,
            json_schema(inline_content(rs, 204)),
        ),
        !has_inline(rs, 200) && !has_inline(rs, 201) && !has_inline(rs, 204) ==> expected_response(rs)
            == (200u16, None::<Value>),
{
    lemma_inline_response_iff(rs, 200);
    lemma_inline_response_iff(rs, 201);
    lemma_inline_response_iff(rs, 204);
}

/// The inline response for `code` is found exactly when the first entry
/// keyed `code` has content, and it is that content.
proof fn lemma_inline_response_iff(rs: Seq<ResponseEntryView>, code: u16)
    ensures
        inline_response(rs, code) is Some <==> has_inline(rs, code),
        has_inline(rs, code) ==> inline_response(rs, code) == Some(inline_content(rs, code)),
{
    lemma_find_response_first(rs, code);
    if has_inline(rs, code) {
        let i = choose|i: int| #[trigger] first_with_status(rs, code, i) && rs[i].content is Some;
        assert(find_response(rs, code) == Some(rs[i]));
    }
    if inline_response(rs, code) is Some {
        let i = choose|i: int| #[trigger] first_with_status(rs, code, i);
        assert(find_response(rs, code) == Some(rs[i]));
        assert(first_with_status(rs, code, i) && rs[i].content is Some);
    }
}

fn endpoint_param(p: &SpecParameter) -> (e: EndpointParam)
    ensures
        e@ == param_view(p@),
{
    let required = match p.location {
        ParamLocation::Path => true,
        _ => p.required,
    };
    EndpointParam { name: p.name.clone(), location: p.location, required, schema: p.schema.clone() }
}

fn endpoint_params(ps: &Vec<Option<SpecParameter>>) -> (v: Vec<EndpointParam>)
    ensures
        v@.map_values(|x: EndpointParam| x@) == params_view(parameter_views(ps@)),
{
    let ghost pv = parameter_views(ps@);
    let mut v: Vec<EndpointParam> = Vec::new();
    let n = ps.len();
    let mut i: usize = 0;
    while i < n
        invariant
            n == ps@.len(),
            pv == parameter_views(ps@),
            0 <= i <= n,
            v@.map_values(|x: EndpointParam| x@) == params_view(pv.take(i as int)),
        decreases n - i,
    {
        match &ps[i] {
            Some(p) => {
                v.push(endpoint_param(p));
            },
            None => {},
        }
        assert(pv.take(i + 1).drop_last() =~= pv.take(i as int));
        assert(pv.take(i + 1).last() == opt_view(ps@[i as int]));
        assert(v@.map_values(|x: EndpointParam| x@) =~= params_view(pv.take(i + 1)));
        i = i + 1;
    }
    assert(pv.take(n as int) =~= pv);
    v
}

fn find_inline_response(rs: &Vec<ResponseEntry>, code: u16) -> (r: Option<&Vec<MediaEntry>>)
    ensures
        match r {
            Some(c) => inline_response(response_views(rs@), code) == Some(media_views(c@)),
            None => inline_response(response_views(rs@), code) is None,
        },
{
    let ghost rv = response_views(rs@);
    let n = rs.len();
    let mut i: usize = 0;
    assert(rv.subrange(0, n as int) =~= rv);
    while i < n
        invariant
            n == rs@.len(),
            rv == response_views(rs@),
            0 <= i <= n,
            find_response(rv, code) == find_response(rv.subrange(i as int, n as int), code),
        decreases n - i,
    {
        assert(rv.subrange(i as int, n as int)[0] == rs@[i as int]@);
        assert(rv.subrange(i as int, n as int).drop_first() =~= rv.subrange(i + 1, n as int));
        if rs[i].status == StatusKey::Code(code) {
            return match &rs[i].content {
                Some(c) => Some(c),
                None => None,
            };
        }
        i = i + 1;
    }
    assert(rv.subrange(n as int, n as int).len() == 0);
    None
}

fn find_json_schema(media: &Vec<MediaEntry>) -> (r: Option<Value>)
    ensures
        r == json_schema(media_views(media@)),
{
    let ghost mv = media_views(media@);
    let n = media.len();
    let mut i: usize = 0;
    assert(mv.subrange(0, n as int) =~= mv);
    while i < n
        invariant
            n == media@.len(),
            mv == media_views(media@),
            0 <= i <= n,
            json_schema(mv) == json_schema(mv.subrange(i as int, n as int)),
        decreases n - i,
    {
        assert(mv.subrange(i as int, n as int)[0] == media@[i as int]@);
        assert(mv.subrange(i as int, n as int).drop_first() =~= mv.subrange(i + 1, n as int));
        if same_text(media[i].media_type.as_str(), "application/json") {
            return media[i].schema.clone();
        }
        i = i + 1;
    }
    assert(mv.subrange(n as int, n as int).len() == 0);
    None
}

fn choose_response(rs: &Vec<ResponseEntry>) -> (r: (u16, Option<Value>))
    ensures
        r == expected_response(response_views(rs@)),
{
    match find_inline_response(rs, 200) {
        Some(c) => (200, find_json_schema(c)),
        None => match find_inline_response(rs, 201) {
            Some(c) => (201, find_json_schema(c)),
            None => match find_inline_response(rs, 204) {
                Some(c) => (204, find_json_schema(c)),
                None => (200, None),
            },
        },
    }
}

fn push_slot_endpoint(
    out: &mut Vec<ParsedEndpoint>,
    path: &String,
    method: &str,
    op: &Option<SpecOperation>,
)
    ensures
        endpoint_views(final(out)@) == endpoint_views(old(out)@) + slot_endpoint(path@, method@, opt_view(*op)),
{
    match op {
        Some(o) => {
            let (expected_status, response_schema) = choose_response(&o.responses);
            let e = ParsedEndpoint {
                method: owned(method),
                path: path.clone(),
                parameters: endpoint_params(&o.parameters),
                expected_status,
                response_schema,
            };
            let ghost before = out@;
            out.push(e);
            assert(endpoint_views(out@) =~= endpoint_views(before).push(e@));
        },
        None => {
            assert(endpoint_views(out@) =~= endpoint_views(out@) + Seq::<ParsedEndpointView>::empty());
        },
    }
}

fn push_item_endpoints(out: &mut Vec<ParsedEndpoint>, path: &String, item: &SpecPathItem)
    ensures
        endpoint_views(final(out)@) == endpoint_views(old(out)@) + item_endpoints(path@, item@),
{
    let ghost start = endpoint_views(out@);
    push_slot_endpoint(out, path, "GET", &item.get);
    push_slot_endpoint(out, path, "POST", &item.post);
    push_slot_endpoint(out, path, "PUT", &item.put);
    push_slot_endpoint(out, path, "DELETE", &item.delete);
    push_slot_endpoint(out, path, "PATCH", &item.patch);
    push_slot_endpoint(out, path, "HEAD", &item.head);
    push_slot_endpoint(out, path, "OPTIONS", &item.options);
    assert(endpoint_views(out@) =~= start + item_endpoints(path@, item@));
}

/// The endpoints of a document, or the reason it is refused: only OpenAPI
/// 3.0.x and 3.1.x documents are accepted.
pub fn endpoints_from_document(doc: &SpecDocument) -> (r: Result<Vec<ParsedEndpoint>, SchemaError>)
    ensures
        r is Err <==> !supported_version(doc@.openapi),
        r matches Err(e) ==> e matches SchemaError::UnsupportedVersion { version } && version@ == doc@.openapi,
        r matches Ok(eps) ==> endpoint_views(eps@) == document_endpoints(doc@.paths),
{
    if !starts_with(doc.openapi.as_str(), "3.0") && !starts_with(doc.openapi.as_str(), "3.1") {
        return Err(SchemaError::UnsupportedVersion { version: doc.openapi.clone() });
    }
    let ghost pv = path_views(doc.paths@);
    let mut out: Vec<ParsedEndpoint> = Vec::new();
    let n = doc.paths.len();
    let mut i: usize = 0;
    while i < n
        invariant
            n == doc.paths@.len(),
            pv == path_views(doc.paths@),
            0 <= i <= n,
            endpoint_views(out@) == document_endpoints(pv.take(i as int)),
        decreases n - i,
    {
        let entry = &doc.paths[i];
        match &entry.item {
            Some(item) => push_item_endpoints(&mut out, &entry.path, item),
            None => {},
        }
        assert(pv.take(i + 1).drop_last() =~= pv.take(i as int));
        assert(pv.take(i + 1).last() == entry@);
        assert(endpoint_views(out@) =~= document_endpoints(pv.take(i + 1)));
        i = i + 1;
    }
    assert(pv.take(n as int) =~= pv);
    Ok(out)
}

// ----------------------------------------------------------------------------
// Reading an `openapiv3` document into the model.

/// The document `serde_yaml::from_str` reads from `content` as an
/// `openapiv3::OpenAPI`, or `None` where it fails.
pub uninterp spec fn yaml_openapi(content: Seq<char>) -> Option<OpenAPI>;

/// The document `serde_json::from_str` reads from `content` as an
/// `openapiv3::OpenAPI`, or `None` where it fails.
pub uninterp spec fn json_openapi(content: Seq<char>) -> Option<OpenAPI>;

/// Calls `serde_yaml::from_str` for an `openapiv3::OpenAPI`; the outcome is
/// named by `yaml_openapi`.
#[verifier::external_body]
fn parse_yaml_document(content: &str) -> (r: Result<OpenAPI, serde_yaml::Error>)
    ensures
        match r {
            Ok(d) => yaml_openapi(content@) == Some(d),
            Err(_) => yaml_openapi(content@) is None,
        },
{
    serde_yaml::from_str(content)
}

/// Calls `serde_json::from_str` for an `openapiv3::OpenAPI`; the outcome is
/// named by `json_openapi`.
#[verifier::external_body]
fn parse_json_document(content: &str) -> (r: Result<OpenAPI, serde_json::Error>)
    ensures
        match r {
            Ok(d) => json_openapi(content@) == Some(d),
            Err(_) => json_openapi(content@) is None,
        },
{
    serde_json::from_str(content)
}

/// The `openapi` field of a document.
pub uninterp spec fn openapi_version(doc: OpenAPI) -> Seq<char>;

/// Reads the `openapi` field of a document; named by `openapi_version`.
#[verifier::external_body]
fn document_version(doc: &OpenAPI) -> (v: String)
    ensures
        v@ == openapi_version(*doc),
{
    doc.openapi.clone()
}

/// The paths map of a document in its order (`Paths::iter`): each path with
/// its item where inline, `None` where it is a `$ref`.
pub uninterp spec fn openapi_paths(doc: OpenAPI) -> Seq<(Seq<char>, Option<PathItem>)>;

/// The texts and items of a listed paths map.
pub open spec fn raw_path_views(ps: Seq<(String, Option<PathItem>)>) -> Seq<(Seq<char>, Option<PathItem>)> {
    ps.map_values(|e: (String, Option<PathItem>)| (e.0@, e.1))
}

/// Lists the paths map of a document through `Paths::iter`; named by
/// `openapi_paths`.
#[verifier::external_body]
fn document_paths(doc: &OpenAPI) -> (paths: Vec<(String, Option<PathItem>)>)
    ensures
        raw_path_views(paths@) == openapi_paths(*doc),
{
    doc.paths.iter().map(
        |(path, item)|
            (
                path.clone(),
                match item {
                    ReferenceOr::Item(i) => Some(i.clone()),
                    ReferenceOr::Reference { .. } => None,
                },
            ),
    ).collect()
}

/// The operation fields of a path item.
struct ItemOperations {
    get: Option<Operation>,
    put: Option<Operation>,
    post: Option<Operation>,
    delete: Option<Operation>,
    options: Option<Operation>,
    head: Option<Operation>,
    patch: Option<Operation>,
}

/// The operation fields of a path item, as `(get, put, post, delete,
/// options, head, patch)`.
pub uninterp spec fn path_item_operations(item: PathItem) -> (
    Option<Operation>,
    Option<Operation>,
    Option<Operation>,
    Option<Operation>,
    Option<Operation>,
    Option<Operation>,
    Option<Operation>,
);

/// Reads the operation fields of a path item; named by `path_item_operations`.
#[verifier::external_body]
fn item_operations(item: &PathItem) -> (ops: ItemOperations)
    ensures
        (ops.get, ops.put, ops.post, ops.delete, ops.options, ops.head, ops.patch)
            == path_item_operations(*item),
{
    ItemOperations {
        get: item.get.clone(),
        put: item.put.clone(),
        post: item.post.clone(),
        delete: item.delete.clone(),
        options: item.options.clone(),
        head: item.head.clone(),
        patch: item.patch.clone(),
    }
}

/// The parameters of an operation in order: each where inline, `None` where
/// it is a `$ref`.
pub uninterp spec fn operation_parameter_list(op: Operation) -> Seq<Option<Parameter>>;

/// Lists the parameters of an operation; named by `operation_parameter_list`.
#[verifier::external_body]
fn operation_parameters(op: &Operation) -> (ps: Vec<Option<Parameter>>)
    ensures
        ps@ == operation_parameter_list(*op),
{
    op.parameters.iter().map(
        |p|
            match p {
                ReferenceOr::Item(i) => Some(i.clone()),
                ReferenceOr::Reference { .. } => None,
            },
    ).collect()
}

/// How a parameter's format is given.
pub enum ParameterFormat {
    /// `schema` with an inline schema.
    InlineSchema(Schema),
    /// `schema` with a `$ref`.
    SchemaReference,
    /// `content` instead of a schema.
    Content,
}

/// What is read of one parameter.
struct ParameterFields {
    location: ParamLocation,
    name: String,
    required: bool,
    format: ParameterFormat,
}

/// A parameter's variant as a location, and from its `parameter_data` the
/// name, the `required` field and the format.
pub uninterp spec fn parameter_reading(p: Parameter) -> (ParamLocation, Seq<char>, bool, ParameterFormat);

/// Reads a parameter; named by `parameter_reading`.
#[verifier::external_body]
fn parameter_fields(p: &Parameter) -> (f: ParameterFields)
    ensures
        (f.location, f.name@, f.required, f.format) == parameter_reading(*p),
{
    let (location, data) = match p {
        Parameter::Query { parameter_data, .. } => (ParamLocation::Query, parameter_data),
        Parameter::Header { parameter_data, .. } => (ParamLocation::Header, parameter_data),
        Parameter::Path { parameter_data, .. } => (ParamLocation::Path, parameter_data),
        Parameter::Cookie { parameter_data, .. } => (ParamLocation::Cookie, parameter_data),
    };
    let format = match &data.format {
        ParameterSchemaOrContent::Schema(ReferenceOr::Item(s)) => ParameterFormat::InlineSchema(s.clone()),
        ParameterSchemaOrContent::Schema(ReferenceOr::Reference { .. }) => ParameterFormat::SchemaReference,
        ParameterSchemaOrContent::Content(_) => ParameterFormat::Content,
    };
    ParameterFields { location, name: data.name.clone(), required: data.required, format }
}

/// The responses map of an operation in its order: each key as a
/// `StatusKey`, each response where inline, `None` where it is a `$ref`.
pub uninterp spec fn operation_response_list(op: Operation) -> Seq<(StatusKey, Option<Response>)>;

/// Lists the responses map of an operation; named by `operation_response_list`.
#[verifier::external_body]
fn operation_responses(op: &Operation) -> (rs: Vec<(StatusKey, Option<Response>)>)
    ensures
        rs@ == operation_response_list(*op),
{
    op.responses.responses.iter().map(
        |(code, r)|
            (
                match code {
                    StatusCode::Code(n) => StatusKey::Code(*n),
                    StatusCode::Range(n) => StatusKey::Range(*n),
                },
                match r {
                    ReferenceOr::Item(i) => Some(i.clone()),
                    ReferenceOr::Reference { .. } => None,
                },
            ),
    ).collect()
}

/// How a media type's schema is given.
pub enum MediaSchema {
    /// An inline schema.
    Inline(Schema),
    /// A `$ref`.
    Reference,
    /// No schema.
    Absent,
}

/// The content map of a response in its order: each media type with how its
/// schema is given.
pub uninterp spec fn response_media_list(r: Response) -> Seq<(Seq<char>, MediaSchema)>;

/// The texts and schemas of a listed content map.
pub open spec fn raw_media_views(ms: Seq<(String, MediaSchema)>) -> Seq<(Seq<char>, MediaSchema)> {
    ms.map_values(|e: (String, MediaSchema)| (e.0@, e.1))
}

/// Lists the content map of a response; named by `response_media_list`.
#[verifier::external_body]
fn response_media(resp: &Response) -> (ms: Vec<(String, MediaSchema)>)
    ensures
        raw_media_views(ms@) == response_media_list(*resp),
{
    resp.content.iter().map(
        |(media_type, m)|
            (
                media_type.clone(),
                match &m.schema {
                    Some(ReferenceOr::Item(s)) => MediaSchema::Inline(s.clone()),
                    Some(ReferenceOr::Reference { .. }) => MediaSchema::Reference,
                    None => MediaSchema::Absent,
                },
            ),
    ).collect()
}

/// The JSON value `serde_json::to_value` gives for a schema, or `None` where it fails.
pub uninterp spec fn schema_json_value(schema: Schema) -> Option<Value>;

/// Calls `serde_json::to_value` on a schema; named by `schema_json_value`.
#[verifier::external_body]
fn schema_to_json(schema: &Schema) -> (v: Option<Value>)
    ensures
        v == schema_json_value(*schema),
{
    serde_json::to_value(schema).ok()
}

// ----------------------------------------------------------------------------
// The model of a read document.

/// The schema a parameter's format gives: only an inline schema counts.
pub open spec fn format_schema(f: ParameterFormat) -> Option<Value> {
    match f {
        ParameterFormat::InlineSchema(s) => schema_json_value(s),
        _ => None,
    }
}

/// The schema a media type gives: only an inline schema counts.
pub open spec fn media_schema(m: MediaSchema) -> Option<Value> {
    match m {
        MediaSchema::Inline(s) => schema_json_value(s),
        _ => None,
    }
}

/// The model of a parameter.
pub open spec fn parameter_model(p: Parameter) -> SpecParameterView {
    let (location, name, required, format) = parameter_reading(p);
    SpecParameterView { location, name, required, schema: format_schema(format) }
}

/// The model of an optional parameter.
pub open spec fn opt_parameter_model(p: Option<Parameter>) -> Option<SpecParameterView> {
    match p {
        Some(x) => Some(parameter_model(x)),
        None => None,
    }
}

/// The model of a media entry.
pub open spec fn media_model(m: (Seq<char>, MediaSchema)) -> MediaEntryView {
    MediaEntryView { media_type: m.0, schema: media_schema(m.1) }
}

/// The model of a responses-map entry.
pub open spec fn response_model(e: (StatusKey, Option<Response>)) -> ResponseEntryView {
    ResponseEntryView {
        status: e.0,
        content: match e.1 {
            Some(r) => Some(response_media_list(r).map_values(|m: (Seq<char>, MediaSchema)| media_model(m))),
            None => None,
        },
    }
}

/// The model of an operation.
pub open spec fn operation_model_of(op: Operation) -> SpecOperationView {
    SpecOperationView {
        parameters: operation_parameter_list(op).map_values(|p: Option<Parameter>| opt_parameter_model(p)),
        responses: operation_response_list(op).map_values(
            |e: (StatusKey, Option<Response>)| response_model(e),
        ),
    }
}

/// The model of an optional operation.
pub open spec fn opt_operation_model(op: Option<Operation>) -> Option<SpecOperationView> {
    match op {
        Some(o) => Some(operation_model_of(o)),
        None => None,
    }
}

/// The model of a path item.
pub open spec fn path_item_model(item: PathItem) -> SpecPathItemView {
    let (get, put, post, delete, options, head, patch) = path_item_operations(item);
    SpecPathItemView {
        get: opt_operation_model(get),
        put: opt_operation_model(put),
        post: opt_operation_model(post),
        delete: opt_operation_model(delete),
        options: opt_operation_model(options),
        head: opt_operation_model(head),
        patch: opt_operation_model(patch),
    }
}

/// The model of a paths-map entry.
pub open spec fn path_entry_model(e: (Seq<char>, Option<PathItem>)) -> PathEntryView {
    PathEntryView {
        path: e.0,
        item: match e.1 {
            Some(i) => Some(path_item_model(i)),
            None => None,
        },
    }
}

/// The model of a document.
pub open spec fn document_model_of(doc: OpenAPI) -> SpecDocumentView {
    SpecDocumentView {
        openapi: openapi_version(doc),
        paths: openapi_paths(doc).map_values(|e: (Seq<char>, Option<PathItem>)| path_entry_model(e)),
    }
}

/// The document read from `content`: as YAML, else as JSON.
pub open spec fn read_openapi(content: Seq<char>) -> Option<OpenAPI> {
    match yaml_openapi(content) {
        Some(d) => Some(d),
        None => json_openapi(content),
    }
}

/// What parsing `content` comes to: `None` where it is no OpenAPI document;
/// the endpoints where its version is supported; the version otherwise.
pub open spec fn parse_outcome(content: Seq<char>) -> Option<Result<Seq<ParsedEndpointView>, Seq<char>>> {
    match read_openapi(content) {
        None => None,
        Some(d) => {
            let m = document_model_of(d);
            if supported_version(m.openapi) {
                Some(Ok(document_endpoints(m.paths)))
            } else {
                Some(Err(m.openapi))
            }
        },
    }
}

/// Two texts that read as the same document, whether as YAML or as JSON,
/// parse to the same outcome.
pub proof fn lemma_same_document_same_outcome(a: Seq<char>, b: Seq<char>)
    requires
        read_openapi(a) == read_openapi(b),
    ensures
        parse_outcome(a) == parse_outcome(b),
{
}

fn optional_schema_json(schema: Option<&Schema>) -> (v: Option<Value>)
    ensures
        v == match schema {
            Some(s) => schema_json_value(*s),
            None => None,
        },
{
    match schema {
        Some(s) => schema_to_json(s),
        None => None,
    }
}

fn parameter_model_of(p: &Parameter) -> (m: SpecParameter)
    ensures
        m@ == parameter_model(*p),
{
    let f = parameter_fields(p);
    let schema = match &f.format {
        ParameterFormat::InlineSchema(s) => optional_schema_json(Some(s)),
        _ => None,
    };
    SpecParameter { location: f.location, name: f.name, required: f.required, schema }
}

fn media_model_of(resp: &Response) -> (media: Vec<MediaEntry>)
    ensures
        media_views(media@) == response_media_list(*resp).map_values(
            |m: (Seq<char>, MediaSchema)| media_model(m),
        ),
{
    let raw_media = response_media(resp);
    let ghost target = response_media_list(*resp).map_values(|m: (Seq<char>, MediaSchema)| media_model(m));
    let mut media: Vec<MediaEntry> = Vec::new();
    let k = raw_media.len();
    let mut q: usize = 0;
    while q < k
        invariant
            k == raw_media@.len(),
            raw_media_views(raw_media@) == response_media_list(*resp),
            target == response_media_list(*resp).map_values(|m: (Seq<char>, MediaSchema)| media_model(m)),
            0 <= q <= k,
            media_views(media@) == target.take(q as int),
        decreases k - q,
    {
        let (media_type, schema) = &raw_media[q];
        let json = match schema {
            MediaSchema::Inline(s) => optional_schema_json(Some(s)),
            _ => None,
        };
        let e = MediaEntry { media_type: media_type.clone(), schema: json };
        let ghost before = media@;
        media.push(e);
        assert(raw_media_views(raw_media@)[q as int] == (raw_media@[q as int].0@, raw_media@[q as int].1));
        assert(target[q as int] == media_model(raw_media_views(raw_media@)[q as int]));
        assert(media_views(media@) =~= media_views(before).push(e@));
        assert(target.take(q + 1) =~= target.take(q as int).push(target[q as int]));
        q = q + 1;
    }
    assert(target.take(k as int) =~= target);
    media
}

fn operation_model(op: &Operation) -> (m: SpecOperation)
    ensures
        m@ == operation_model_of(*op),
{
    let ghost model = operation_model_of(*op);
    let raw_params = operation_parameters(op);
    let mut parameters: Vec<Option<SpecParameter>> = Vec::new();
    let n = raw_params.len();
    let mut i: usize = 0;
    while i < n
        invariant
            n == raw_params@.len(),
            raw_params@ == operation_parameter_list(*op),
            model == operation_model_of(*op),
            0 <= i <= n,
            parameter_views(parameters@) == model.parameters.take(i as int),
        decreases n - i,
    {
        let p = match &raw_params[i] {
            Some(p) => Some(parameter_model_of(p)),
            None => None,
        };
        let ghost before = parameters@;
        parameters.push(p);
        assert(model.parameters[i as int] == opt_parameter_model(raw_params@[i as int]));
        assert(parameter_views(parameters@) =~= parameter_views(before).push(opt_view(p)));
        assert(model.parameters.take(i + 1) =~= model.parameters.take(i as int).push(model.parameters[i as int]));
        i = i + 1;
    }
    assert(model.parameters.take(n as int) =~= model.parameters);
    let raw_responses = operation_responses(op);
    let mut responses: Vec<ResponseEntry> = Vec::new();
    let m = raw_responses.len();
    let mut j: usize = 0;
    while j < m
        invariant
            m == raw_responses@.len(),
            raw_responses@ == operation_response_list(*op),
            model == operation_model_of(*op),
            0 <= j <= m,
            response_views(responses@) == model.responses.take(j as int),
        decreases m - j,
    {
        let (status, resp) = &raw_responses[j];
        let content = match resp {
            Some(r) => Some(media_model_of(r)),
            None => None,
        };
        let e = ResponseEntry { status: *status, content };
        let ghost before = responses@;
        responses.push(e);
        assert(model.responses[j as int] == response_model(raw_responses@[j as int]));
        assert(response_views(responses@) =~= response_views(before).push(e@));
        assert(model.responses.take(j + 1) =~= model.responses.take(j as int).push(model.responses[j as int]));
        j = j + 1;
    }
    assert(model.responses.take(m as int) =~= model.responses);
    SpecOperation { parameters, responses }
}

fn optional_operation_model(op: &Option<Operation>) -> (m: Option<SpecOperation>)
    ensures
        opt_view(m) == opt_operation_model(*op),
{
    match op {
        Some(o) => Some(operation_model(o)),
        None => None,
    }
}

fn path_item_model_of(item: &PathItem) -> (m: SpecPathItem)
    ensures
        m@ == path_item_model(*item),
{
    let ops = item_operations(item);
    SpecPathItem {
        get: optional_operation_model(&ops.get),
        put: optional_operation_model(&ops.put),
        post: optional_operation_model(&ops.post),
        delete: optional_operation_model(&ops.delete),
        options: optional_operation_model(&ops.options),
        head: optional_operation_model(&ops.head),
        patch: optional_operation_model(&ops.patch),
    }
}

fn document_model(doc: &OpenAPI) -> (m: SpecDocument)
    ensures
        m@ == document_model_of(*doc),
{
    let ghost model = document_model_of(*doc);
    let raw_paths = document_paths(doc);
    let mut paths: Vec<PathEntry> = Vec::new();
    let n = raw_paths.len();
    let mut i: usize = 0;
    while i < n
        invariant
            n == raw_paths@.len(),
            raw_path_views(raw_paths@) == openapi_paths(*doc),
            model == document_model_of(*doc),
            0 <= i <= n,
            path_views(paths@) == model.paths.take(i as int),
        decreases n - i,
    {
        let (path, item) = &raw_paths[i];
        let item = match item {
            Some(it) => Some(path_item_model_of(it)),
            None => None,
        };
        let e = PathEntry { path: path.clone(), item };
        let ghost before = paths@;
        paths.push(e);
        assert(raw_path_views(raw_paths@)[i as int] == (raw_paths@[i as int].0@, raw_paths@[i as int].1));
        assert(model.paths[i as int] == path_entry_model(raw_path_views(raw_paths@)[i as int]));
        assert(path_views(paths@) =~= path_views(before).push(e@));
        assert(model.paths.take(i + 1) =~= model.paths.take(i as int).push(model.paths[i as int]));
        i = i + 1;
    }
    assert(model.paths.take(n as int) =~= model.paths);
    SpecDocument { openapi: document_version(doc), paths }
}

/// Parse an OpenAPI 3.x document, in YAML or else in JSON, into endpoints.
///
/// The document is read as YAML first; where YAML does not give an OpenAPI
/// document, as JSON, and where neither does, the JSON error is returned.
/// A document whose version is not 3.0.x or 3.1.x is refused; otherwise its
/// endpoints are those of its paths, in order (see `parse_outcome`).
pub fn parse_openapi_string(content: &str) -> (r: Result<Vec<ParsedEndpoint>, SchemaError>)
    ensures
        match parse_outcome(content@) {
            None => r matches Err(SchemaError::JsonParse(_)),
            Some(Ok(endpoints)) => r matches Ok(eps) && endpoint_views(eps@) == endpoints,
            Some(Err(version)) => r matches Err(SchemaError::UnsupportedVersion { version: v })
                && v@ == version,
        },
        r matches Ok(eps) ==> forall|i: int|
            0 <= i < eps@.len() ==> endpoint_well_formed(#[trigger] endpoint_views(eps@)[i]),
{
    let doc = match parse_yaml_document(content) {
        Ok(d) => d,
        Err(_) => match parse_json_document(content) {
            Ok(d) => d,
            Err(e) => return Err(SchemaError::JsonParse(e)),
        },
    };
    assert(read_openapi(content@) == Some(doc));
    let model = document_model(&doc);
    let r = endpoints_from_document(&model);
    proof {
        lemma_document_endpoints_well_formed(model@.paths);
    }
    r
}

} // verus!
