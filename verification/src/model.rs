//! The engine's model of an OpenAPI document.
//!
//! The merge engine reads and rewrites only a part of a document: path and
//! component names, operation slots, tags, and the places where a `$ref`
//! string may stand. Those parts are modelled precisely; everything else a
//! document carries travels through the engine untouched inside [`Json`]
//! values (the `extra` fields), where it still takes part in structural
//! comparison. Ordered maps are association lists: insertion order is
//! significant in OpenAPI documents and is kept by the engine.

use vstd::prelude::*;
use crate::json::Json;
use crate::json::JsonV;
use crate::json::view_json;

verus! {

/// A schema slot: either a `$ref` or an inline schema. Of an inline schema
/// the engine models exactly the constructs that can contain further
/// schemas; everything else sits in `extra`.
#[derive(Debug, PartialEq)]
pub enum Schema {
    Ref(String),
    Inline {
        one_of: Vec<Schema>,
        all_of: Vec<Schema>,
        any_of: Vec<Schema>,
        not: Option<Box<Schema>>,
        properties: Vec<(String, Schema)>,
        additional_any: Option<bool>,
        additional_schema: Option<Box<Schema>>,
        items: Option<Box<Schema>>,
        extra: Json,
    },
}

/// An example or link slot: either a `$ref` or an uninterpreted value.
#[derive(Debug, PartialEq)]
pub enum JsonOrRef {
    Ref(String),
    Val(Json),
}

/// A media type: its schema plus named examples.
#[derive(Debug, PartialEq)]
pub struct MediaType {
    pub schema: Option<Schema>,
    pub examples: Vec<(String, JsonOrRef)>,
    pub extra: Json,
}

/// A parameter or header slot. The payload shared by the two is the same:
/// a schema or a content map, plus named examples.
#[derive(Debug, PartialEq)]
pub enum Parameter {
    Ref(String),
    Item {
        schema: Option<Schema>,
        content: Vec<(String, MediaType)>,
        examples: Vec<(String, JsonOrRef)>,
        extra: Json,
    },
}

/// A request body slot.
#[derive(Debug, PartialEq)]
pub enum RequestBody {
    Ref(String),
    Item { content: Vec<(String, MediaType)>, extra: Json },
}

/// A response slot.
#[derive(Debug, PartialEq)]
pub enum Response {
    Ref(String),
    Item {
        headers: Vec<(String, Parameter)>,
        content: Vec<(String, MediaType)>,
        links: Vec<(String, JsonOrRef)>,
        extra: Json,
    },
}

/// One operation: the parts the engine reads (its id and tags) and the
/// parts the reference walker visits.
#[derive(Debug, PartialEq)]
pub struct Operation {
    pub operation_id: Option<String>,
    pub tags: Vec<String>,
    pub parameters: Vec<Parameter>,
    pub request_body: Option<RequestBody>,
    pub responses: Vec<(String, Response)>,
    pub extra: Json,
}

/// A path item slot: a `$ref`, or the eight operation slots plus shared
/// parameters.
#[derive(Debug, PartialEq)]
pub enum PathItem {
    Ref(String),
    Item {
        get: Option<Operation>,
        put: Option<Operation>,
        post: Option<Operation>,
        delete: Option<Operation>,
        options: Option<Operation>,
        head: Option<Operation>,
        patch: Option<Operation>,
        trace: Option<Operation>,
        parameters: Vec<Parameter>,
        extra: Json,
    },
}

/// A callback slot: a map from expression to path item.
#[derive(Debug, PartialEq)]
pub enum Callback {
    Ref(String),
    Item(Vec<(String, PathItem)>),
}

/// A component value of any of the eight renameable kinds.
#[derive(Debug, PartialEq)]
pub enum Component {
    Schema(Schema),
    Response(Response),
    Parameter(Parameter),
    Example(JsonOrRef),
    RequestBody(RequestBody),
    Header(Parameter),
    Link(JsonOrRef),
    Callback(Callback),
}

/// The `components` region: one ordered map per kind.
#[derive(Debug, PartialEq)]
pub struct Components {
    pub schemas: Vec<(String, Component)>,
    pub responses: Vec<(String, Component)>,
    pub parameters: Vec<(String, Component)>,
    pub examples: Vec<(String, Component)>,
    pub request_bodies: Vec<(String, Component)>,
    pub headers: Vec<(String, Component)>,
    pub links: Vec<(String, Component)>,
    pub callbacks: Vec<(String, Component)>,
    pub security_schemes: Vec<(String, Json)>,
    pub extra: Json,
}

/// A tag record: its name and the rest of it.
#[derive(Debug, PartialEq)]
pub struct Tag {
    pub name: String,
    pub extra: Json,
}

/// The `info` record.
#[derive(Debug, PartialEq)]
pub struct Info {
    pub title: String,
    pub version: String,
    pub description: Option<String>,
    pub extra: Json,
}

/// A whole OpenAPI document, as the engine sees it.
#[derive(Debug, PartialEq)]
pub struct Document {
    pub openapi: String,
    pub info: Info,
    pub servers: Vec<Json>,
    pub paths: Vec<(String, PathItem)>,
    pub components: Option<Components>,
    pub security: Option<Vec<Json>>,
    pub tags: Vec<Tag>,
    pub external_docs: Option<Json>,
    pub extensions: Vec<(String, Json)>,
}

// ------------------------------------------------------------------
// Mathematical mirrors. Optional sub-schemas of a schema are mirrored as
// sequences of length at most one, so that all recursion passes through
// `Seq`.
// ------------------------------------------------------------------

#[verifier::ext_equal]
pub enum SchemaV {
    Ref(Seq<char>),
    Inline {
        one_of: Seq<SchemaV>,
        all_of: Seq<SchemaV>,
        any_of: Seq<SchemaV>,
        not: Seq<SchemaV>,
        properties: Seq<(Seq<char>, SchemaV)>,
        additional_any: Option<bool>,
        additional_schema: Seq<SchemaV>,
        items: Seq<SchemaV>,
        extra: JsonV,
    },
}

#[verifier::ext_equal]
pub enum JsonOrRefV {
    Ref(Seq<char>),
    Val(JsonV),
}

#[verifier::ext_equal]
pub struct MediaTypeV {
    pub schema: Option<SchemaV>,
    pub examples: Seq<(Seq<char>, JsonOrRefV)>,
    pub extra: JsonV,
}

#[verifier::ext_equal]
pub enum ParameterV {
    Ref(Seq<char>),
    Item {
        schema: Option<SchemaV>,
        content: Seq<(Seq<char>, MediaTypeV)>,
        examples: Seq<(Seq<char>, JsonOrRefV)>,
        extra: JsonV,
    },
}

#[verifier::ext_equal]
pub enum RequestBodyV {
    Ref(Seq<char>),
    Item { content: Seq<(Seq<char>, MediaTypeV)>, extra: JsonV },
}

#[verifier::ext_equal]
pub enum ResponseV {
    Ref(Seq<char>),
    Item {
        headers: Seq<(Seq<char>, ParameterV)>,
        content: Seq<(Seq<char>, MediaTypeV)>,
        links: Seq<(Seq<char>, JsonOrRefV)>,
        extra: JsonV,
    },
}

#[verifier::ext_equal]
pub struct OperationV {
    pub operation_id: Option<Seq<char>>,
    pub tags: Seq<Seq<char>>,
    pub parameters: Seq<ParameterV>,
    pub request_body: Option<RequestBodyV>,
    pub responses: Seq<(Seq<char>, ResponseV)>,
    pub extra: JsonV,
}

#[verifier::ext_equal]
pub enum PathItemV {
    Ref(Seq<char>),
    Item {
        get: Option<OperationV>,
        put: Option<OperationV>,
        post: Option<OperationV>,
        delete: Option<OperationV>,
        options: Option<OperationV>,
        head: Option<OperationV>,
        patch: Option<OperationV>,
        trace: Option<OperationV>,
        parameters: Seq<ParameterV>,
        extra: JsonV,
    },
}

#[verifier::ext_equal]
pub enum CallbackV {
    Ref(Seq<char>),
    Item(Seq<(Seq<char>, PathItemV)>),
}

#[verifier::ext_equal]
pub enum ComponentV {
    Schema(SchemaV),
    Response(ResponseV),
    Parameter(ParameterV),
    Example(JsonOrRefV),
    RequestBody(RequestBodyV),
    Header(ParameterV),
    Link(JsonOrRefV),
    Callback(CallbackV),
}

#[verifier::ext_equal]
pub struct ComponentsV {
    pub schemas: Seq<(Seq<char>, ComponentV)>,
    pub responses: Seq<(Seq<char>, ComponentV)>,
    pub parameters: Seq<(Seq<char>, ComponentV)>,
    pub examples: Seq<(Seq<char>, ComponentV)>,
    pub request_bodies: Seq<(Seq<char>, ComponentV)>,
    pub headers: Seq<(Seq<char>, ComponentV)>,
    pub links: Seq<(Seq<char>, ComponentV)>,
    pub callbacks: Seq<(Seq<char>, ComponentV)>,
    pub security_schemes: Seq<(Seq<char>, JsonV)>,
    pub extra: JsonV,
}

#[verifier::ext_equal]
pub struct TagV {
    pub name: Seq<char>,
    pub extra: JsonV,
}

#[verifier::ext_equal]
pub struct InfoV {
    pub title: Seq<char>,
    pub version: Seq<char>,
    pub description: Option<Seq<char>>,
    pub extra: JsonV,
}

#[verifier::ext_equal]
pub struct DocumentV {
    pub openapi: Seq<char>,
    pub info: InfoV,
    pub servers: Seq<JsonV>,
    pub paths: Seq<(Seq<char>, PathItemV)>,
    pub components: Option<ComponentsV>,
    pub security: Option<Seq<JsonV>>,
    pub tags: Seq<TagV>,
    pub external_docs: Option<JsonV>,
    pub extensions: Seq<(Seq<char>, JsonV)>,
}

// ------------------------------------------------------------------
// Views. The schema family is mutually recursive and gets explicit
// sequence helpers; everything after it is a straight descent.
// ------------------------------------------------------------------

pub open spec fn view_schema(s: Schema) -> SchemaV
    decreases s,
{
    match s {
        Schema::Ref(t) => SchemaV::Ref(t@),
        Schema::Inline {
            one_of,
            all_of,
            any_of,
            not,
            properties,
            additional_any,
            additional_schema,
            items,
            extra,
        } => SchemaV::Inline {
            one_of: view_schema_seq(one_of@),
            all_of: view_schema_seq(all_of@),
            any_of: view_schema_seq(any_of@),
            not: view_schema_opt(not),
            properties: view_schema_map(properties@),
            additional_any: additional_any,
            additional_schema: view_schema_opt(additional_schema),
            items: view_schema_opt(items),
            extra: view_json(extra),
        },
    }
}

pub open spec fn view_schema_seq(s: Seq<Schema>) -> Seq<SchemaV>
    decreases s,
{
    if s.len() == 0 {
        Seq::empty()
    } else {
        seq![view_schema(s[0])] + view_schema_seq(s.subrange(1, s.len() as int))
    }
}

pub open spec fn view_schema_map(s: Seq<(String, Schema)>) -> Seq<(Seq<char>, SchemaV)>
    decreases s,
{
    if s.len() == 0 {
        Seq::empty()
    } else {
        seq![(s[0].0@, view_schema(s[0].1))] + view_schema_map(s.subrange(1, s.len() as int))
    }
}

pub open spec fn view_schema_opt(s: Option<Box<Schema>>) -> Seq<SchemaV>
    decreases s,
{
    match s {
        Option::None => Seq::empty(),
        Option::Some(b) => seq![view_schema(*b)],
    }
}

pub broadcast proof fn lemma_view_schema_seq(s: Seq<Schema>)
    ensures
        (#[trigger] view_schema_seq(s)).len() == s.len(),
        forall|i: int| 0 <= i < s.len() ==> #[trigger] view_schema_seq(s)[i] == view_schema(s[i]),
    decreases s.len(),
{
    if s.len() > 0 {
        let tail = s.subrange(1, s.len() as int);
        lemma_view_schema_seq(tail);
        assert forall|i: int|
            0 <= i < s.len() implies #[trigger] view_schema_seq(s)[i] == view_schema(s[i]) by {
            if i > 0 {
                assert(tail[i - 1] == s[i]);
                assert(view_schema_seq(s)[i] == view_schema_seq(tail)[i - 1]);
            }
        }
    }
}

pub broadcast proof fn lemma_view_schema_map(s: Seq<(String, Schema)>)
    ensures
        (#[trigger] view_schema_map(s)).len() == s.len(),
        forall|i: int|
            0 <= i < s.len() ==> #[trigger] view_schema_map(s)[i] == (s[i].0@, view_schema(
                s[i].1,
            )),
    decreases s.len(),
{
    if s.len() > 0 {
        let tail = s.subrange(1, s.len() as int);
        lemma_view_schema_map(tail);
        assert forall|i: int|
            0 <= i < s.len() implies #[trigger] view_schema_map(s)[i] == (s[i].0@, view_schema(
            s[i].1,
        )) by {
            if i > 0 {
                assert(tail[i - 1] == s[i]);
                assert(view_schema_map(s)[i] == view_schema_map(tail)[i - 1]);
            }
        }
    }
}

impl View for Schema {
    type V = SchemaV;

    open spec fn view(&self) -> SchemaV {
        view_schema(*self)
    }
}

impl DeepView for Schema {
    type V = SchemaV;

    open spec fn deep_view(&self) -> SchemaV {
        view_schema(*self)
    }
}

pub open spec fn view_json_or_ref(v: JsonOrRef) -> JsonOrRefV {
    match v {
        JsonOrRef::Ref(t) => JsonOrRefV::Ref(t@),
        JsonOrRef::Val(j) => JsonOrRefV::Val(view_json(j)),
    }
}

impl View for JsonOrRef {
    type V = JsonOrRefV;

    open spec fn view(&self) -> JsonOrRefV {
        view_json_or_ref(*self)
    }
}

impl DeepView for JsonOrRef {
    type V = JsonOrRefV;

    open spec fn deep_view(&self) -> JsonOrRefV {
        view_json_or_ref(*self)
    }
}

impl DeepView for Json {
    type V = JsonV;

    open spec fn deep_view(&self) -> JsonV {
        view_json(*self)
    }
}

pub open spec fn view_media_type(m: MediaType) -> MediaTypeV {
    MediaTypeV {
        schema: match m.schema {
            Option::None => Option::None,
            Option::Some(s) => Option::Some(view_schema(s)),
        },
        examples: m.examples.deep_view(),
        extra: view_json(m.extra),
    }
}

impl View for MediaType {
    type V = MediaTypeV;

    open spec fn view(&self) -> MediaTypeV {
        view_media_type(*self)
    }
}

impl DeepView for MediaType {
    type V = MediaTypeV;

    open spec fn deep_view(&self) -> MediaTypeV {
        view_media_type(*self)
    }
}

pub open spec fn view_parameter(p: Parameter) -> ParameterV {
    match p {
        Parameter::Ref(t) => ParameterV::Ref(t@),
        Parameter::Item { schema, content, examples, extra } => ParameterV::Item {
            schema: match schema {
                Option::None => Option::None,
                Option::Some(s) => Option::Some(view_schema(s)),
            },
            content: content.deep_view(),
            examples: examples.deep_view(),
            extra: view_json(extra),
        },
    }
}

impl View for Parameter {
    type V = ParameterV;

    open spec fn view(&self) -> ParameterV {
        view_parameter(*self)
    }
}

impl DeepView for Parameter {
    type V = ParameterV;

    open spec fn deep_view(&self) -> ParameterV {
        view_parameter(*self)
    }
}

pub open spec fn view_request_body(r: RequestBody) -> RequestBodyV {
    match r {
        RequestBody::Ref(t) => RequestBodyV::Ref(t@),
        RequestBody::Item { content, extra } => RequestBodyV::Item {
            content: content.deep_view(),
            extra: view_json(extra),
        },
    }
}

impl View for RequestBody {
    type V = RequestBodyV;

    open spec fn view(&self) -> RequestBodyV {
        view_request_body(*self)
    }
}

impl DeepView for RequestBody {
    type V = RequestBodyV;

    open spec fn deep_view(&self) -> RequestBodyV {
        view_request_body(*self)
    }
}

pub open spec fn view_response(r: Response) -> ResponseV {
    match r {
        Response::Ref(t) => ResponseV::Ref(t@),
        Response::Item { headers, content, links, extra } => ResponseV::Item {
            headers: headers.deep_view(),
            content: content.deep_view(),
            links: links.deep_view(),
            extra: view_json(extra),
        },
    }
}

impl View for Response {
    type V = ResponseV;

    open spec fn view(&self) -> ResponseV {
        view_response(*self)
    }
}

impl DeepView for Response {
    type V = ResponseV;

    open spec fn deep_view(&self) -> ResponseV {
        view_response(*self)
    }
}

pub open spec fn view_operation(o: Operation) -> OperationV {
    OperationV {
        operation_id: match o.operation_id {
            Option::None => Option::None,
            Option::Some(s) => Option::Some(s@),
        },
        tags: o.tags.deep_view(),
        parameters: o.parameters.deep_view(),
        request_body: match o.request_body {
            Option::None => Option::None,
            Option::Some(r) => Option::Some(view_request_body(r)),
        },
        responses: o.responses.deep_view(),
        extra: view_json(o.extra),
    }
}

impl View for Operation {
    type V = OperationV;

    open spec fn view(&self) -> OperationV {
        view_operation(*self)
    }
}

impl DeepView for Operation {
    type V = OperationV;

    open spec fn deep_view(&self) -> OperationV {
        view_operation(*self)
    }
}

pub open spec fn view_operation_opt(o: Option<Operation>) -> Option<OperationV> {
    match o {
        Option::None => Option::None,
        Option::Some(op) => Option::Some(view_operation(op)),
    }
}

pub open spec fn view_path_item(p: PathItem) -> PathItemV {
    match p {
        PathItem::Ref(t) => PathItemV::Ref(t@),
        PathItem::Item {
            get,
            put,
            post,
            delete,
            options,
            head,
            patch,
            trace,
            parameters,
            extra,
        } => PathItemV::Item {
            get: view_operation_opt(get),
            put: view_operation_opt(put),
            post: view_operation_opt(post),
            delete: view_operation_opt(delete),
            options: view_operation_opt(options),
            head: view_operation_opt(head),
            patch: view_operation_opt(patch),
            trace: view_operation_opt(trace),
            parameters: parameters.deep_view(),
            extra: view_json(extra),
        },
    }
}

impl View for PathItem {
    type V = PathItemV;

    open spec fn view(&self) -> PathItemV {
        view_path_item(*self)
    }
}

impl DeepView for PathItem {
    type V = PathItemV;

    open spec fn deep_view(&self) -> PathItemV {
        view_path_item(*self)
    }
}

pub open spec fn view_callback(c: Callback) -> CallbackV {
    match c {
        Callback::Ref(t) => CallbackV::Ref(t@),
        Callback::Item(entries) => CallbackV::Item(entries.deep_view()),
    }
}

impl View for Callback {
    type V = CallbackV;

    open spec fn view(&self) -> CallbackV {
        view_callback(*self)
    }
}

impl DeepView for Callback {
    type V = CallbackV;

    open spec fn deep_view(&self) -> CallbackV {
        view_callback(*self)
    }
}

pub open spec fn view_component(c: Component) -> ComponentV {
    match c {
        Component::Schema(s) => ComponentV::Schema(view_schema(s)),
        Component::Response(r) => ComponentV::Response(view_response(r)),
        Component::Parameter(p) => ComponentV::Parameter(view_parameter(p)),
        Component::Example(e) => ComponentV::Example(view_json_or_ref(e)),
        Component::RequestBody(r) => ComponentV::RequestBody(view_request_body(r)),
        Component::Header(h) => ComponentV::Header(view_parameter(h)),
        Component::Link(l) => ComponentV::Link(view_json_or_ref(l)),
        Component::Callback(c) => ComponentV::Callback(view_callback(c)),
    }
}

impl View for Component {
    type V = ComponentV;

    open spec fn view(&self) -> ComponentV {
        view_component(*self)
    }
}

impl DeepView for Component {
    type V = ComponentV;

    open spec fn deep_view(&self) -> ComponentV {
        view_component(*self)
    }
}

pub open spec fn view_components(c: Components) -> ComponentsV {
    ComponentsV {
        schemas: c.schemas.deep_view(),
        responses: c.responses.deep_view(),
        parameters: c.parameters.deep_view(),
        examples: c.examples.deep_view(),
        request_bodies: c.request_bodies.deep_view(),
        headers: c.headers.deep_view(),
        links: c.links.deep_view(),
        callbacks: c.callbacks.deep_view(),
        security_schemes: c.security_schemes.deep_view(),
        extra: view_json(c.extra),
    }
}

impl View for Components {
    type V = ComponentsV;

    open spec fn view(&self) -> ComponentsV {
        view_components(*self)
    }
}

impl DeepView for Components {
    type V = ComponentsV;

    open spec fn deep_view(&self) -> ComponentsV {
        view_components(*self)
    }
}

pub open spec fn view_tag(t: Tag) -> TagV {
    TagV { name: t.name@, extra: view_json(t.extra) }
}

impl View for Tag {
    type V = TagV;

    open spec fn view(&self) -> TagV {
        view_tag(*self)
    }
}

impl DeepView for Tag {
    type V = TagV;

    open spec fn deep_view(&self) -> TagV {
        view_tag(*self)
    }
}

pub open spec fn view_info(i: Info) -> InfoV {
    InfoV {
        title: i.title@,
        version: i.version@,
        description: match i.description {
            Option::None => Option::None,
            Option::Some(d) => Option::Some(d@),
        },
        extra: view_json(i.extra),
    }
}

impl View for Info {
    type V = InfoV;

    open spec fn view(&self) -> InfoV {
        view_info(*self)
    }
}

impl DeepView for Info {
    type V = InfoV;

    open spec fn deep_view(&self) -> InfoV {
        view_info(*self)
    }
}

pub open spec fn view_document(d: Document) -> DocumentV {
    DocumentV {
        openapi: d.openapi@,
        info: view_info(d.info),
        servers: d.servers.deep_view(),
        paths: d.paths.deep_view(),
        components: match d.components {
            Option::None => Option::None,
            Option::Some(c) => Option::Some(view_components(c)),
        },
        security: match d.security {
            Option::None => Option::None,
            Option::Some(s) => Option::Some(s.deep_view()),
        },
        tags: d.tags.deep_view(),
        external_docs: match d.external_docs {
            Option::None => Option::None,
            Option::Some(e) => Option::Some(view_json(e)),
        },
        extensions: d.extensions.deep_view(),
    }
}

impl View for Document {
    type V = DocumentV;

    open spec fn view(&self) -> DocumentV {
        view_document(*self)
    }
}

impl DeepView for Document {
    type V = DocumentV;

    open spec fn deep_view(&self) -> DocumentV {
        view_document(*self)
    }
}

} // verus!
