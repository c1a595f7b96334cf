//! The canonical JSON form of component values.
//!
//! Two component values are structurally equal exactly when their canonical
//! forms are equal under [`json_eq`]: order-insensitive for object keys,
//! order-sensitive for arrays. This is the engine's single notion of
//! equality (the merge algorithm consults it when two inputs define a
//! component under the same name).

use vstd::prelude::*;
use crate::json::Json;
use crate::json::JsonV;
use crate::json::json_eq;
use crate::json::json_equal;
use crate::json::view_json;
use crate::json::view_json_seq;
use crate::json::view_json_entries;
use crate::json::lemma_view_json_seq;
use crate::json::lemma_view_json_entries;
use crate::json::lemma_view_json_seq_push;
use crate::json::lemma_view_json_entries_push;
use crate::model::Schema;
use crate::model::SchemaV;
use crate::model::JsonOrRef;
use crate::model::JsonOrRefV;
use crate::model::MediaType;
use crate::model::MediaTypeV;
use crate::model::Parameter;
use crate::model::ParameterV;
use crate::model::RequestBody;
use crate::model::RequestBodyV;
use crate::model::Response;
use crate::model::ResponseV;
use crate::model::Operation;
use crate::model::OperationV;
use crate::model::PathItem;
use crate::model::PathItemV;
use crate::model::Callback;
use crate::model::CallbackV;
use crate::model::Component;
use crate::model::ComponentV;
use crate::model::view_schema;
use crate::model::view_schema_seq;
use crate::model::view_schema_map;
use crate::model::view_schema_opt;
use crate::model::view_json_or_ref;
use crate::model::view_media_type;
use crate::model::view_parameter;
use crate::model::view_request_body;
use crate::model::view_response;
use crate::model::view_operation;
use crate::model::view_operation_opt;
use crate::model::view_path_item;
use crate::model::view_callback;
use crate::model::view_component;
use crate::model::Tag;
use crate::model::Info;
use crate::model::lemma_view_schema_seq;
use crate::model::lemma_view_schema_map;

verus! {

/// The canonical form of a bare `$ref` node.
pub open spec fn ref_node(t: Seq<char>) -> JsonV {
    JsonV::Obj(seq![("$ref"@, JsonV::Str(t))])
}

/// The entries an `extra` value contributes: those of an object, nothing
/// otherwise.
pub open spec fn extra_entries(e: JsonV) -> Seq<(Seq<char>, JsonV)> {
    match e {
        JsonV::Obj(es) => es,
        _ => Seq::empty(),
    }
}

pub open spec fn canon_schema(s: SchemaV) -> JsonV
    decreases s,
{
    match s {
        SchemaV::Ref(t) => ref_node(t),
        SchemaV::Inline {
            one_of,
            all_of,
            any_of,
            not,
            properties,
            additional_any,
            additional_schema,
            items,
            extra,
        } => {
            let e0 = extra_entries(extra);
            let e1 = if all_of.len() > 0 {
                e0.push(("allOf"@, JsonV::Arr(canon_schema_seq(all_of))))
            } else {
                e0
            };
            let e2 = if one_of.len() > 0 {
                e1.push(("oneOf"@, JsonV::Arr(canon_schema_seq(one_of))))
            } else {
                e1
            };
            let e3 = if any_of.len() > 0 {
                e2.push(("anyOf"@, JsonV::Arr(canon_schema_seq(any_of))))
            } else {
                e2
            };
            let e4 = if not.len() > 0 {
                e3.push(("not"@, canon_schema(not[0])))
            } else {
                e3
            };
            let e5 = if properties.len() > 0 {
                e4.push(("properties"@, JsonV::Obj(canon_schema_map(properties))))
            } else {
                e4
            };
            let e6 = match additional_any {
                Option::Some(b) => e5.push(("additionalProperties"@, JsonV::Bool(b))),
                Option::None => if additional_schema.len() > 0 {
                    e5.push(("additionalProperties"@, canon_schema(additional_schema[0])))
                } else {
                    e5
                },
            };
            let e7 = if items.len() > 0 {
                e6.push(("items"@, canon_schema(items[0])))
            } else {
                e6
            };
            JsonV::Obj(e7)
        },
    }
}

pub open spec fn canon_schema_seq(ss: Seq<SchemaV>) -> Seq<JsonV>
    decreases ss,
{
    if ss.len() == 0 {
        Seq::empty()
    } else {
        canon_schema_seq(ss.subrange(0, ss.len() - 1)).push(canon_schema(ss[ss.len() - 1]))
    }
}

pub open spec fn canon_schema_map(ps: Seq<(Seq<char>, SchemaV)>) -> Seq<(Seq<char>, JsonV)>
    decreases ps,
{
    if ps.len() == 0 {
        Seq::empty()
    } else {
        canon_schema_map(ps.subrange(0, ps.len() - 1)).push(
            (ps[ps.len() - 1].0, canon_schema(ps[ps.len() - 1].1)),
        )
    }
}

pub open spec fn canon_json_or_ref(v: JsonOrRefV) -> JsonV {
    match v {
        JsonOrRefV::Ref(t) => ref_node(t),
        JsonOrRefV::Val(j) => j,
    }
}

pub open spec fn canon_json_or_ref_map(es: Seq<(Seq<char>, JsonOrRefV)>) -> Seq<
    (Seq<char>, JsonV),
>
    decreases es,
{
    if es.len() == 0 {
        Seq::empty()
    } else {
        canon_json_or_ref_map(es.subrange(0, es.len() - 1)).push(
            (es[es.len() - 1].0, canon_json_or_ref(es[es.len() - 1].1)),
        )
    }
}

pub open spec fn canon_media_type(m: MediaTypeV) -> JsonV {
    let e0 = extra_entries(m.extra);
    let e1 = match m.schema {
        Option::Some(s) => e0.push(("schema"@, canon_schema(s))),
        Option::None => e0,
    };
    let e2 = if m.examples.len() > 0 {
        e1.push(("examples"@, JsonV::Obj(canon_json_or_ref_map(m.examples))))
    } else {
        e1
    };
    JsonV::Obj(e2)
}

pub open spec fn canon_media_type_map(es: Seq<(Seq<char>, MediaTypeV)>) -> Seq<(Seq<char>, JsonV)>
    decreases es,
{
    if es.len() == 0 {
        Seq::empty()
    } else {
        canon_media_type_map(es.subrange(0, es.len() - 1)).push(
            (es[es.len() - 1].0, canon_media_type(es[es.len() - 1].1)),
        )
    }
}

pub open spec fn canon_parameter(p: ParameterV) -> JsonV {
    match p {
        ParameterV::Ref(t) => ref_node(t),
        ParameterV::Item { schema, content, examples, extra } => {
            let e0 = extra_entries(extra);
            let e1 = match schema {
                Option::Some(s) => e0.push(("schema"@, canon_schema(s))),
                Option::None => e0,
            };
            let e2 = if content.len() > 0 {
                e1.push(("content"@, JsonV::Obj(canon_media_type_map(content))))
            } else {
                e1
            };
            let e3 = if examples.len() > 0 {
                e2.push(("examples"@, JsonV::Obj(canon_json_or_ref_map(examples))))
            } else {
                e2
            };
            JsonV::Obj(e3)
        },
    }
}

pub open spec fn canon_parameter_map(es: Seq<(Seq<char>, ParameterV)>) -> Seq<(Seq<char>, JsonV)>
    decreases es,
{
    if es.len() == 0 {
        Seq::empty()
    } else {
        canon_parameter_map(es.subrange(0, es.len() - 1)).push(
            (es[es.len() - 1].0, canon_parameter(es[es.len() - 1].1)),
        )
    }
}

pub open spec fn canon_parameter_seq(ps: Seq<ParameterV>) -> Seq<JsonV>
    decreases ps,
{
    if ps.len() == 0 {
        Seq::empty()
    } else {
        canon_parameter_seq(ps.subrange(0, ps.len() - 1)).push(canon_parameter(ps[ps.len() - 1]))
    }
}

pub open spec fn canon_request_body(r: RequestBodyV) -> JsonV {
    match r {
        RequestBodyV::Ref(t) => ref_node(t),
        RequestBodyV::Item { content, extra } => {
            let e0 = extra_entries(extra);
            let e1 = if content.len() > 0 {
                e0.push(("content"@, JsonV::Obj(canon_media_type_map(content))))
            } else {
                e0
            };
            JsonV::Obj(e1)
        },
    }
}

pub open spec fn canon_response(r: ResponseV) -> JsonV {
    match r {
        ResponseV::Ref(t) => ref_node(t),
        ResponseV::Item { headers, content, links, extra } => {
            let e0 = extra_entries(extra);
            let e1 = if headers.len() > 0 {
                e0.push(("headers"@, JsonV::Obj(canon_parameter_map(headers))))
            } else {
                e0
            };
            let e2 = if content.len() > 0 {
                e1.push(("content"@, JsonV::Obj(canon_media_type_map(content))))
            } else {
                e1
            };
            let e3 = if links.len() > 0 {
                e2.push(("links"@, JsonV::Obj(canon_json_or_ref_map(links))))
            } else {
                e2
            };
            JsonV::Obj(e3)
        },
    }
}

pub open spec fn canon_response_map(es: Seq<(Seq<char>, ResponseV)>) -> Seq<(Seq<char>, JsonV)>
    decreases es,
{
    if es.len() == 0 {
        Seq::empty()
    } else {
        canon_response_map(es.subrange(0, es.len() - 1)).push(
            (es[es.len() - 1].0, canon_response(es[es.len() - 1].1)),
        )
    }
}

pub open spec fn str_seq_to_json(ts: Seq<Seq<char>>) -> Seq<JsonV>
    decreases ts,
{
    if ts.len() == 0 {
        Seq::empty()
    } else {
        str_seq_to_json(ts.subrange(0, ts.len() - 1)).push(JsonV::Str(ts[ts.len() - 1]))
    }
}

pub open spec fn canon_operation(o: OperationV) -> JsonV {
    let e0 = extra_entries(o.extra);
    let e1 = match o.operation_id {
        Option::Some(id) => e0.push(("operationId"@, JsonV::Str(id))),
        Option::None => e0,
    };
    let e2 = if o.tags.len() > 0 {
        e1.push(("tags"@, JsonV::Arr(str_seq_to_json(o.tags))))
    } else {
        e1
    };
    let e3 = if o.parameters.len() > 0 {
        e2.push(("parameters"@, JsonV::Arr(canon_parameter_seq(o.parameters))))
    } else {
        e2
    };
    let e4 = match o.request_body {
        Option::Some(r) => e3.push(("requestBody"@, canon_request_body(r))),
        Option::None => e3,
    };
    let e5 = e4.push(("responses"@, JsonV::Obj(canon_response_map(o.responses))));
    JsonV::Obj(e5)
}

pub open spec fn canon_operation_entry(key: Seq<char>, o: Option<OperationV>, es: Seq<
    (Seq<char>, JsonV),
>) -> Seq<(Seq<char>, JsonV)> {
    match o {
        Option::Some(op) => es.push((key, canon_operation(op))),
        Option::None => es,
    }
}

pub open spec fn canon_path_item(p: PathItemV) -> JsonV {
    match p {
        PathItemV::Ref(t) => ref_node(t),
        PathItemV::Item {
            get,
            put,
            post,
            delete,
            options,
            head,
            patch,
            trace,
            parameters,
            extra,
        } => {
            let e0 = extra_entries(extra);
            let e1 = canon_operation_entry("get"@, get, e0);
            let e2 = canon_operation_entry("put"@, put, e1);
            let e3 = canon_operation_entry("post"@, post, e2);
            let e4 = canon_operation_entry("delete"@, delete, e3);
            let e5 = canon_operation_entry("options"@, options, e4);
            let e6 = canon_operation_entry("head"@, head, e5);
            let e7 = canon_operation_entry("patch"@, patch, e6);
            let e8 = canon_operation_entry("trace"@, trace, e7);
            let e9 = if parameters.len() > 0 {
                e8.push(("parameters"@, JsonV::Arr(canon_parameter_seq(parameters))))
            } else {
                e8
            };
            JsonV::Obj(e9)
        },
    }
}

pub open spec fn canon_path_item_map(es: Seq<(Seq<char>, PathItemV)>) -> Seq<(Seq<char>, JsonV)>
    decreases es,
{
    if es.len() == 0 {
        Seq::empty()
    } else {
        canon_path_item_map(es.subrange(0, es.len() - 1)).push(
            (es[es.len() - 1].0, canon_path_item(es[es.len() - 1].1)),
        )
    }
}

pub open spec fn canon_callback(c: CallbackV) -> JsonV {
    match c {
        CallbackV::Ref(t) => ref_node(t),
        CallbackV::Item(es) => JsonV::Obj(canon_path_item_map(es)),
    }
}

/// The canonical form of a component value of any kind.
pub open spec fn canon_component(c: ComponentV) -> JsonV {
    match c {
        ComponentV::Schema(s) => canon_schema(s),
        ComponentV::Response(r) => canon_response(r),
        ComponentV::Parameter(p) => canon_parameter(p),
        ComponentV::Example(e) => canon_json_or_ref(e),
        ComponentV::RequestBody(r) => canon_request_body(r),
        ComponentV::Header(h) => canon_parameter(h),
        ComponentV::Link(l) => canon_json_or_ref(l),
        ComponentV::Callback(cb) => canon_callback(cb),
    }
}

/// Structural equality of two component values: equality of their
/// canonical forms.
pub open spec fn spec_components_equal(a: ComponentV, b: ComponentV) -> bool {
    json_eq(canon_component(a), canon_component(b))
}

// ------------------------------------------------------------------
// Executable canonicalisation.
// ------------------------------------------------------------------

/// A structurally identical copy of `j`.
#[verifier::loop_isolation(false)]
pub fn json_clone(j: &Json) -> (r: Json)
    ensures
        r@ == j@,
    decreases *j,
{
    broadcast use lemma_view_json_seq, lemma_view_json_entries;

    match j {
        Json::Null => Json::Null,
        Json::Bool(b) => Json::Bool(*b),
        Json::Num(s) => Json::Num(s.clone()),
        Json::Str(s) => Json::Str(s.clone()),
        Json::Arr(items) => {
            let mut out: Vec<Json> = Vec::new();
            let mut i: usize = 0;
            while i < items.len()
                invariant
                    0 <= i <= items@.len(),
                    out@.len() == i,
                    forall|k: int| 0 <= k < i ==> (#[trigger] out@[k])@ == items@[k]@,
                decreases items@.len() - i,
            {
                proof {
                    assert(*items == j->Arr_0);
                    assert(decreases_to!(*j => *items));
                    assert(decreases_to!(*items => items@[i as int]));
                }
                out.push(json_clone(&items[i]));
                i = i + 1;
            }
            proof {
                assert(view_json_seq(out@) =~= view_json_seq(items@));
            }
            Json::Arr(out)
        },
        Json::Obj(entries) => {
            let mut out: Vec<(String, Json)> = Vec::new();
            let mut i: usize = 0;
            while i < entries.len()
                invariant
                    0 <= i <= entries@.len(),
                    out@.len() == i,
                    forall|k: int|
                        0 <= k < i ==> (#[trigger] out@[k]).0@ == entries@[k].0@ && out@[k].1@
                            == entries@[k].1@,
                decreases entries@.len() - i,
            {
                proof {
                    assert(*entries == j->Obj_0);
                    assert(decreases_to!(*j => *entries));
                    assert(decreases_to!(*entries => entries@[i as int]));
                    assert(decreases_to!(entries@[i as int] => entries@[i as int].1));
                }
                out.push((entries[i].0.clone(), json_clone(&entries[i].1)));
                i = i + 1;
            }
            proof {
                assert(view_json_entries(out@) =~= view_json_entries(entries@));
            }
            Json::Obj(out)
        },
    }
}

/// A copy of a list of strings, with the same view.
#[verifier::loop_isolation(false)]
pub fn clone_string_vec(v: &Vec<String>) -> (r: Vec<String>)
    ensures
        r.deep_view() == v.deep_view(),
{
    let mut out: Vec<String> = Vec::new();
    let mut i: usize = 0;
    while i < v.len()
        invariant
            0 <= i <= v@.len(),
            out@.len() == i,
            forall|k: int| 0 <= k < i ==> (#[trigger] out@[k])@ == v@[k]@,
        decreases v@.len() - i,
    {
        out.push(v[i].clone());
        i = i + 1;
    }
    proof {
        assert(out.deep_view() =~= v.deep_view());
    }
    out
}

/// A copy of an optional string, with the same view.
pub fn clone_opt_string(v: &Option<String>) -> (r: Option<String>)
    ensures
        r.deep_view() == v.deep_view(),
{
    match v {
        Option::Some(s) => Option::Some(s.clone()),
        Option::None => Option::None,
    }
}

/// A copy of a list of JSON values, with the same view.
#[verifier::loop_isolation(false)]
pub fn clone_json_vec(v: &Vec<Json>) -> (r: Vec<Json>)
    ensures
        r.deep_view() == v.deep_view(),
{
    let mut out: Vec<Json> = Vec::new();
    let mut i: usize = 0;
    while i < v.len()
        invariant
            0 <= i <= v@.len(),
            out@.len() == i,
            forall|k: int| 0 <= k < i ==> (#[trigger] out@[k])@ == v@[k]@,
        decreases v@.len() - i,
    {
        out.push(json_clone(&v[i]));
        i = i + 1;
    }
    proof {
        assert(out.deep_view() =~= v.deep_view());
    }
    out
}

/// A copy of a named map of JSON values, with the same view.
#[verifier::loop_isolation(false)]
pub fn clone_json_entries(v: &Vec<(String, Json)>) -> (r: Vec<(String, Json)>)
    ensures
        r.deep_view() == v.deep_view(),
{
    let mut out: Vec<(String, Json)> = Vec::new();
    let mut i: usize = 0;
    while i < v.len()
        invariant
            0 <= i <= v@.len(),
            out@.len() == i,
            forall|k: int|
                0 <= k < i ==> (#[trigger] out@[k]).0@ == v@[k].0@ && out@[k].1@ == v@[k].1@,
        decreases v@.len() - i,
    {
        out.push((v[i].0.clone(), json_clone(&v[i].1)));
        i = i + 1;
    }
    proof {
        assert(out.deep_view() =~= v.deep_view());
    }
    out
}

/// A copy of a tag list, with the same view.
#[verifier::loop_isolation(false)]
pub fn clone_tag_vec(v: &Vec<Tag>) -> (r: Vec<Tag>)
    ensures
        r.deep_view() == v.deep_view(),
{
    let mut out: Vec<Tag> = Vec::new();
    let mut i: usize = 0;
    while i < v.len()
        invariant
            0 <= i <= v@.len(),
            out@.len() == i,
            forall|k: int| 0 <= k < i ==> (#[trigger] out@[k]).deep_view() == v@[k].deep_view(),
        decreases v@.len() - i,
    {
        out.push(Tag { name: v[i].name.clone(), extra: json_clone(&v[i].extra) });
        i = i + 1;
    }
    proof {
        assert(out.deep_view() =~= v.deep_view());
    }
    out
}

/// A copy of an info record, with the same view.
pub fn clone_info(i: &Info) -> (r: Info)
    ensures
        r.deep_view() == i.deep_view(),
{
    Info {
        title: i.title.clone(),
        version: i.version.clone(),
        description: clone_opt_string(&i.description),
        extra: json_clone(&i.extra),
    }
}

/// The entries `extra` contributes to a canonical object.
#[verifier::loop_isolation(false)]
pub fn extra_to_entries(e: &Json) -> (r: Vec<(String, Json)>)
    ensures
        view_json_entries(r@) == extra_entries(e@),
{
    broadcast use lemma_view_json_entries, lemma_view_json_entries_push;

    match e {
        Json::Obj(entries) => {
            let mut out: Vec<(String, Json)> = Vec::new();
            let mut i: usize = 0;
            while i < entries.len()
                invariant
                    0 <= i <= entries@.len(),
                    out@.len() == i,
                    forall|k: int|
                        0 <= k < i ==> (#[trigger] out@[k]).0@ == entries@[k].0@ && out@[k].1@
                            == entries@[k].1@,
                decreases entries@.len() - i,
            {
                out.push((entries[i].0.clone(), json_clone(&entries[i].1)));
                i = i + 1;
            }
            proof {
                assert(view_json_entries(out@) =~= view_json_entries(entries@));
            }
            out
        },
        _ => {
            let out: Vec<(String, Json)> = Vec::new();
            proof {
                assert(view_json_entries(out@) =~= extra_entries(e@));
            }
            out
        },
    }
}

/// The canonical form of a `$ref` string.
pub fn ref_to_json(t: &String) -> (r: Json)
    ensures
        r@ == ref_node(t@),
{
    broadcast use lemma_view_json_entries, lemma_view_json_entries_push;

    let mut es: Vec<(String, Json)> = Vec::new();
    es.push(("$ref".to_owned(), Json::Str(t.clone())));
    proof {
        assert(view_json_entries(es@) =~= seq![("$ref"@, JsonV::Str(t@))]);
    }
    Json::Obj(es)
}

/// The canonical form of a schema, following [`canon_schema`].
#[verifier::loop_isolation(false)]
pub fn to_json_schema(s: &Schema) -> (r: Json)
    ensures
        r@ == canon_schema(s.deep_view()),
    decreases *s,
{
    broadcast use
        lemma_view_json_entries,
        lemma_view_json_entries_push,
        lemma_view_schema_seq,
        lemma_view_schema_map,
    ;

    match s {
        Schema::Ref(t) => {
            let r = ref_to_json(t);
            proof {
                assert(s.deep_view() == SchemaV::Ref(t@));
                assert(canon_schema(SchemaV::Ref(t@)) == ref_node(t@));
                assert(r@ == ref_node(t@));
                assert(r@ == canon_schema(s.deep_view()));
            }
            r
        },
        Schema::Inline {
            one_of,
            all_of,
            any_of,
            not,
            properties,
            additional_any,
            additional_schema,
            items,
            extra,
        } => {
            proof {
                assert(decreases_to!(*s => *all_of));
                assert(decreases_to!(*s => *one_of));
                assert(decreases_to!(*s => *any_of));
                assert(decreases_to!(*s => *not));
                assert(decreases_to!(*s => *properties));
                assert(decreases_to!(*s => *additional_schema));
                assert(decreases_to!(*s => *items));
            }
            let ghost vall = view_schema_seq(all_of@);
            let ghost vone = view_schema_seq(one_of@);
            let ghost vany = view_schema_seq(any_of@);
            let ghost vnot = view_schema_opt(*not);
            let ghost vprops = view_schema_map(properties@);
            let ghost vaddsch = view_schema_opt(*additional_schema);
            let ghost vitems = view_schema_opt(*items);
            let ghost vextra = view_json(*extra);
            let ghost sv = SchemaV::Inline {
                one_of: vone,
                all_of: vall,
                any_of: vany,
                not: vnot,
                properties: vprops,
                additional_any: *additional_any,
                additional_schema: vaddsch,
                items: vitems,
                extra: vextra,
            };
            proof {
                assert(s.deep_view() == sv);
            }
            let ghost e0 = extra_entries(vextra);
            let mut es = extra_to_entries(extra);
            let ghost e1 = if vall.len() > 0 {
                e0.push(("allOf"@, JsonV::Arr(canon_schema_seq(vall))))
            } else {
                e0
            };
            if all_of.len() > 0 {
                es.push(("allOf".to_owned(), Json::Arr(to_json_schema_seq(all_of))));
            }
            assert(view_json_entries(es@) == e1);
            let ghost e2 = if vone.len() > 0 {
                e1.push(("oneOf"@, JsonV::Arr(canon_schema_seq(vone))))
            } else {
                e1
            };
            if one_of.len() > 0 {
                es.push(("oneOf".to_owned(), Json::Arr(to_json_schema_seq(one_of))));
            }
            assert(view_json_entries(es@) == e2);
            let ghost e3 = if vany.len() > 0 {
                e2.push(("anyOf"@, JsonV::Arr(canon_schema_seq(vany))))
            } else {
                e2
            };
            if any_of.len() > 0 {
                es.push(("anyOf".to_owned(), Json::Arr(to_json_schema_seq(any_of))));
            }
            assert(view_json_entries(es@) == e3);
            let ghost e4 = if vnot.len() > 0 {
                e3.push(("not"@, canon_schema(vnot[0])))
            } else {
                e3
            };
            match not {
                Option::Some(n) => {
                    proof {
                        assert(decreases_to!(*not => *n));
                    }
                    es.push(("not".to_owned(), to_json_schema(&**n)));
                },
                Option::None => {},
            }
            assert(view_json_entries(es@) == e4);
            let ghost e5 = if vprops.len() > 0 {
                e4.push(("properties"@, JsonV::Obj(canon_schema_map(vprops))))
            } else {
                e4
            };
            if properties.len() > 0 {
                es.push(("properties".to_owned(), Json::Obj(to_json_schema_map(properties))));
            }
            assert(view_json_entries(es@) == e5);
            let ghost e6 = match *additional_any {
                Option::Some(b) => e5.push(("additionalProperties"@, JsonV::Bool(b))),
                Option::None => if vaddsch.len() > 0 {
                    e5.push(("additionalProperties"@, canon_schema(vaddsch[0])))
                } else {
                    e5
                },
            };
            match additional_any {
                Option::Some(b) => {
                    es.push(("additionalProperties".to_owned(), Json::Bool(*b)));
                },
                Option::None => {
                    match additional_schema {
                        Option::Some(a) => {
                            proof {
                                assert(decreases_to!(*additional_schema => *a));
                            }
                            es.push(("additionalProperties".to_owned(), to_json_schema(&**a)));
                        },
                        Option::None => {},
                    }
                },
            }
            assert(view_json_entries(es@) == e6);
            let ghost e7 = if vitems.len() > 0 {
                e6.push(("items"@, canon_schema(vitems[0])))
            } else {
                e6
            };
            match items {
                Option::Some(it) => {
                    proof {
                        assert(decreases_to!(*items => *it));
                    }
                    es.push(("items".to_owned(), to_json_schema(&**it)));
                },
                Option::None => {},
            }
            assert(view_json_entries(es@) == e7);
            proof {
                assert(canon_schema(sv) == JsonV::Obj(e7));
            }
            Json::Obj(es)
        },
    }
}

/// The canonical forms of a list of schemas.
#[verifier::loop_isolation(false)]
pub fn to_json_schema_seq(v: &Vec<Schema>) -> (r: Vec<Json>)
    ensures
        view_json_seq(r@) == canon_schema_seq(view_schema_seq(v@)),
    decreases *v,
{
    broadcast use lemma_view_json_seq, lemma_view_json_seq_push, lemma_view_schema_seq;

    let mut out: Vec<Json> = Vec::new();
    let mut i: usize = 0;
    proof {
        assert(view_schema_seq(v@.subrange(0, 0)) =~= Seq::<SchemaV>::empty());
    }
    while i < v.len()
        invariant
            0 <= i <= v@.len(),
            view_json_seq(out@) == canon_schema_seq(view_schema_seq(v@.subrange(0, i as int))),
        decreases v@.len() - i,
    {
        proof {
            assert(decreases_to!(*v => v@[i as int]));
        }
        let ghost pre = view_schema_seq(v@.subrange(0, i as int));
        let j = to_json_schema(&v[i]);
        out.push(j);
        proof {
            let post = view_schema_seq(v@.subrange(0, i as int + 1));
            assert(post.subrange(0, post.len() - 1) =~= pre);
            assert(post[i as int] == view_schema(v@[i as int]));
            assert(canon_schema_seq(post) == canon_schema_seq(pre).push(
                canon_schema(view_schema(v@[i as int])),
            ));
        }
        i = i + 1;
    }
    proof {
        assert(v@.subrange(0, v@.len() as int) =~= v@);
    }
    out
}

/// The canonical forms of a named map of schemas.
#[verifier::loop_isolation(false)]
pub fn to_json_schema_map(v: &Vec<(String, Schema)>) -> (r: Vec<(String, Json)>)
    ensures
        view_json_entries(r@) == canon_schema_map(view_schema_map(v@)),
    decreases *v,
{
    broadcast use lemma_view_json_entries, lemma_view_json_entries_push, lemma_view_schema_map;

    let mut out: Vec<(String, Json)> = Vec::new();
    let mut i: usize = 0;
    proof {
        assert(view_schema_map(v@.subrange(0, 0)) =~= Seq::<(Seq<char>, SchemaV)>::empty());
    }
    while i < v.len()
        invariant
            0 <= i <= v@.len(),
            view_json_entries(out@) == canon_schema_map(view_schema_map(v@.subrange(0, i as int))),
        decreases v@.len() - i,
    {
        proof {
            assert(decreases_to!(*v => v@[i as int]));
            assert(decreases_to!(v@[i as int] => v@[i as int].1));
        }
        let ghost pre = view_schema_map(v@.subrange(0, i as int));
        let j = to_json_schema(&v[i].1);
        out.push((v[i].0.clone(), j));
        proof {
            let post = view_schema_map(v@.subrange(0, i as int + 1));
            assert(post.subrange(0, post.len() - 1) =~= pre);
            assert(post[i as int] == (v@[i as int].0@, view_schema(v@[i as int].1)));
            assert(canon_schema_map(post) == canon_schema_map(pre).push(
                (v@[i as int].0@, canon_schema(view_schema(v@[i as int].1))),
            ));
        }
        i = i + 1;
    }
    proof {
        assert(v@.subrange(0, v@.len() as int) =~= v@);
    }
    out
}

/// The canonical form of an example or link slot.
pub fn to_json_json_or_ref(v: &JsonOrRef) -> (r: Json)
    ensures
        r@ == canon_json_or_ref(v.deep_view()),
{
    match v {
        JsonOrRef::Ref(t) => ref_to_json(t),
        JsonOrRef::Val(j) => json_clone(j),
    }
}

/// The canonical forms of a named map of examples or links.
#[verifier::loop_isolation(false)]
pub fn to_json_json_or_ref_map(v: &Vec<(String, JsonOrRef)>) -> (r: Vec<(String, Json)>)
    ensures
        view_json_entries(r@) == canon_json_or_ref_map(v.deep_view()),
{
    broadcast use lemma_view_json_entries, lemma_view_json_entries_push;

    let ghost full = v.deep_view();
    let mut out: Vec<(String, Json)> = Vec::new();
    let mut i: usize = 0;
    proof {
        assert(full.subrange(0, 0) =~= Seq::<(Seq<char>, JsonOrRefV)>::empty());
    }
    while i < v.len()
        invariant
            0 <= i <= v@.len(),
            view_json_entries(out@) == canon_json_or_ref_map(full.subrange(0, i as int)),
        decreases v@.len() - i,
    {
        let j = to_json_json_or_ref(&v[i].1);
        out.push((v[i].0.clone(), j));
        proof {
            let post = full.subrange(0, i as int + 1);
            assert(post.subrange(0, post.len() - 1) =~= full.subrange(0, i as int));
            assert(full[i as int] == (v@[i as int].0@, v@[i as int].1.deep_view()));
        }
        i = i + 1;
    }
    proof {
        assert(full.subrange(0, full.len() as int) =~= full);
    }
    out
}

/// The canonical form of a media type.
pub fn to_json_media_type(m: &MediaType) -> (r: Json)
    ensures
        r@ == canon_media_type(m.deep_view()),
{
    broadcast use lemma_view_json_entries, lemma_view_json_entries_push;

    let ghost mv = m.deep_view();
    let ghost e0 = extra_entries(mv.extra);
    let mut es = extra_to_entries(&m.extra);
    let ghost e1 = match mv.schema {
        Option::Some(s) => e0.push(("schema"@, canon_schema(s))),
        Option::None => e0,
    };
    match &m.schema {
        Option::Some(s) => {
            es.push(("schema".to_owned(), to_json_schema(s)));
        },
        Option::None => {},
    }
    assert(view_json_entries(es@) == e1);
    let ghost e2 = if mv.examples.len() > 0 {
        e1.push(("examples"@, JsonV::Obj(canon_json_or_ref_map(mv.examples))))
    } else {
        e1
    };
    if m.examples.len() > 0 {
        es.push(("examples".to_owned(), Json::Obj(to_json_json_or_ref_map(&m.examples))));
    }
    assert(view_json_entries(es@) == e2);
    proof {
        assert(canon_media_type(mv) == JsonV::Obj(e2));
    }
    Json::Obj(es)
}

/// The canonical forms of a named map of media types.
#[verifier::loop_isolation(false)]
pub fn to_json_media_type_map(v: &Vec<(String, MediaType)>) -> (r: Vec<(String, Json)>)
    ensures
        view_json_entries(r@) == canon_media_type_map(v.deep_view()),
{
    broadcast use lemma_view_json_entries, lemma_view_json_entries_push;

    let ghost full = v.deep_view();
    let mut out: Vec<(String, Json)> = Vec::new();
    let mut i: usize = 0;
    proof {
        assert(full.subrange(0, 0) =~= Seq::<(Seq<char>, MediaTypeV)>::empty());
    }
    while i < v.len()
        invariant
            0 <= i <= v@.len(),
            view_json_entries(out@) == canon_media_type_map(full.subrange(0, i as int)),
        decreases v@.len() - i,
    {
        let j = to_json_media_type(&v[i].1);
        out.push((v[i].0.clone(), j));
        proof {
            let post = full.subrange(0, i as int + 1);
            assert(post.subrange(0, post.len() - 1) =~= full.subrange(0, i as int));
            assert(full[i as int] == (v@[i as int].0@, v@[i as int].1.deep_view()));
        }
        i = i + 1;
    }
    proof {
        assert(full.subrange(0, full.len() as int) =~= full);
    }
    out
}

/// The canonical form of a parameter or header.
pub fn to_json_parameter(p: &Parameter) -> (r: Json)
    ensures
        r@ == canon_parameter(p.deep_view()),
{
    broadcast use lemma_view_json_entries, lemma_view_json_entries_push;

    match p {
        Parameter::Ref(t) => ref_to_json(t),
        Parameter::Item { schema, content, examples, extra } => {
            let ghost pv = p.deep_view();
            let ghost e0 = extra_entries(view_json(*extra));
            let mut es = extra_to_entries(extra);
            let ghost e1 = match pv->Item_schema {
                Option::Some(s) => e0.push(("schema"@, canon_schema(s))),
                Option::None => e0,
            };
            match schema {
                Option::Some(s) => {
                    es.push(("schema".to_owned(), to_json_schema(s)));
                },
                Option::None => {},
            }
            assert(view_json_entries(es@) == e1);
            let ghost e2 = if pv->Item_content.len() > 0 {
                e1.push(("content"@, JsonV::Obj(canon_media_type_map(pv->Item_content))))
            } else {
                e1
            };
            if content.len() > 0 {
                es.push(("content".to_owned(), Json::Obj(to_json_media_type_map(content))));
            }
            assert(view_json_entries(es@) == e2);
            let ghost e3 = if pv->Item_examples.len() > 0 {
                e2.push(("examples"@, JsonV::Obj(canon_json_or_ref_map(pv->Item_examples))))
            } else {
                e2
            };
            if examples.len() > 0 {
                es.push(("examples".to_owned(), Json::Obj(to_json_json_or_ref_map(examples))));
            }
            assert(view_json_entries(es@) == e3);
            proof {
                assert(canon_parameter(pv) == JsonV::Obj(e3));
            }
            Json::Obj(es)
        },
    }
}

/// The canonical forms of a named map of parameters or headers.
#[verifier::loop_isolation(false)]
pub fn to_json_parameter_map(v: &Vec<(String, Parameter)>) -> (r: Vec<(String, Json)>)
    ensures
        view_json_entries(r@) == canon_parameter_map(v.deep_view()),
{
    broadcast use lemma_view_json_entries, lemma_view_json_entries_push;

    let ghost full = v.deep_view();
    let mut out: Vec<(String, Json)> = Vec::new();
    let mut i: usize = 0;
    proof {
        assert(full.subrange(0, 0) =~= Seq::<(Seq<char>, ParameterV)>::empty());
    }
    while i < v.len()
        invariant
            0 <= i <= v@.len(),
            view_json_entries(out@) == canon_parameter_map(full.subrange(0, i as int)),
        decreases v@.len() - i,
    {
        let j = to_json_parameter(&v[i].1);
        out.push((v[i].0.clone(), j));
        proof {
            let post = full.subrange(0, i as int + 1);
            assert(post.subrange(0, post.len() - 1) =~= full.subrange(0, i as int));
            assert(full[i as int] == (v@[i as int].0@, v@[i as int].1.deep_view()));
        }
        i = i + 1;
    }
    proof {
        assert(full.subrange(0, full.len() as int) =~= full);
    }
    out
}

/// The canonical forms of a list of parameters.
#[verifier::loop_isolation(false)]
pub fn to_json_parameter_seq(v: &Vec<Parameter>) -> (r: Vec<Json>)
    ensures
        view_json_seq(r@) == canon_parameter_seq(v.deep_view()),
{
    broadcast use lemma_view_json_seq, lemma_view_json_seq_push;

    let ghost full = v.deep_view();
    let mut out: Vec<Json> = Vec::new();
    let mut i: usize = 0;
    proof {
        assert(full.subrange(0, 0) =~= Seq::<ParameterV>::empty());
    }
    while i < v.len()
        invariant
            0 <= i <= v@.len(),
            view_json_seq(out@) == canon_parameter_seq(full.subrange(0, i as int)),
        decreases v@.len() - i,
    {
        let j = to_json_parameter(&v[i]);
        out.push(j);
        proof {
            let post = full.subrange(0, i as int + 1);
            assert(post.subrange(0, post.len() - 1) =~= full.subrange(0, i as int));
            assert(full[i as int] == v@[i as int].deep_view());
        }
        i = i + 1;
    }
    proof {
        assert(full.subrange(0, full.len() as int) =~= full);
    }
    out
}

/// The canonical form of a request body.
pub fn to_json_request_body(b: &RequestBody) -> (r: Json)
    ensures
        r@ == canon_request_body(b.deep_view()),
{
    broadcast use lemma_view_json_entries, lemma_view_json_entries_push;

    match b {
        RequestBody::Ref(t) => ref_to_json(t),
        RequestBody::Item { content, extra } => {
            let ghost bv = b.deep_view();
            let ghost e0 = extra_entries(view_json(*extra));
            let mut es = extra_to_entries(extra);
            let ghost e1 = if bv->Item_content.len() > 0 {
                e0.push(("content"@, JsonV::Obj(canon_media_type_map(bv->Item_content))))
            } else {
                e0
            };
            if content.len() > 0 {
                es.push(("content".to_owned(), Json::Obj(to_json_media_type_map(content))));
            }
            assert(view_json_entries(es@) == e1);
            proof {
                assert(canon_request_body(bv) == JsonV::Obj(e1));
            }
            Json::Obj(es)
        },
    }
}

/// The canonical form of a response.
pub fn to_json_response(resp: &Response) -> (r: Json)
    ensures
        r@ == canon_response(resp.deep_view()),
{
    broadcast use lemma_view_json_entries, lemma_view_json_entries_push;

    match resp {
        Response::Ref(t) => ref_to_json(t),
        Response::Item { headers, content, links, extra } => {
            let ghost rv = resp.deep_view();
            let ghost e0 = extra_entries(view_json(*extra));
            let mut es = extra_to_entries(extra);
            let ghost e1 = if rv->Item_headers.len() > 0 {
                e0.push(("headers"@, JsonV::Obj(canon_parameter_map(rv->Item_headers))))
            } else {
                e0
            };
            if headers.len() > 0 {
                es.push(("headers".to_owned(), Json::Obj(to_json_parameter_map(headers))));
            }
            assert(view_json_entries(es@) == e1);
            let ghost e2 = if rv->Item_content.len() > 0 {
                e1.push(("content"@, JsonV::Obj(canon_media_type_map(rv->Item_content))))
            } else {
                e1
            };
            if content.len() > 0 {
                es.push(("content".to_owned(), Json::Obj(to_json_media_type_map(content))));
            }
            assert(view_json_entries(es@) == e2);
            let ghost e3 = if rv->Item_links.len() > 0 {
                e2.push(("links"@, JsonV::Obj(canon_json_or_ref_map(rv->Item_links))))
            } else {
                e2
            };
            if links.len() > 0 {
                es.push(("links".to_owned(), Json::Obj(to_json_json_or_ref_map(links))));
            }
            assert(view_json_entries(es@) == e3);
            proof {
                assert(canon_response(rv) == JsonV::Obj(e3));
            }
            Json::Obj(es)
        },
    }
}

/// The canonical forms of a named map of responses.
#[verifier::loop_isolation(false)]
pub fn to_json_response_map(v: &Vec<(String, Response)>) -> (r: Vec<(String, Json)>)
    ensures
        view_json_entries(r@) == canon_response_map(v.deep_view()),
{
    broadcast use lemma_view_json_entries, lemma_view_json_entries_push;

    let ghost full = v.deep_view();
    let mut out: Vec<(String, Json)> = Vec::new();
    let mut i: usize = 0;
    proof {
        assert(full.subrange(0, 0) =~= Seq::<(Seq<char>, ResponseV)>::empty());
    }
    while i < v.len()
        invariant
            0 <= i <= v@.len(),
            view_json_entries(out@) == canon_response_map(full.subrange(0, i as int)),
        decreases v@.len() - i,
    {
        let j = to_json_response(&v[i].1);
        out.push((v[i].0.clone(), j));
        proof {
            let post = full.subrange(0, i as int + 1);
            assert(post.subrange(0, post.len() - 1) =~= full.subrange(0, i as int));
            assert(full[i as int] == (v@[i as int].0@, v@[i as int].1.deep_view()));
        }
        i = i + 1;
    }
    proof {
        assert(full.subrange(0, full.len() as int) =~= full);
    }
    out
}

/// Tag names as a list of canonical JSON strings.
#[verifier::loop_isolation(false)]
pub fn tags_to_json(v: &Vec<String>) -> (r: Vec<Json>)
    ensures
        view_json_seq(r@) == str_seq_to_json(v.deep_view()),
{
    broadcast use lemma_view_json_seq, lemma_view_json_seq_push;

    let ghost full = v.deep_view();
    let mut out: Vec<Json> = Vec::new();
    let mut i: usize = 0;
    proof {
        assert(full.subrange(0, 0) =~= Seq::<Seq<char>>::empty());
    }
    while i < v.len()
        invariant
            0 <= i <= v@.len(),
            view_json_seq(out@) == str_seq_to_json(full.subrange(0, i as int)),
        decreases v@.len() - i,
    {
        out.push(Json::Str(v[i].clone()));
        proof {
            let post = full.subrange(0, i as int + 1);
            assert(post.subrange(0, post.len() - 1) =~= full.subrange(0, i as int));
            assert(full[i as int] == v@[i as int]@);
        }
        i = i + 1;
    }
    proof {
        assert(full.subrange(0, full.len() as int) =~= full);
    }
    out
}

/// The canonical form of an operation.
pub fn to_json_operation(o: &Operation) -> (r: Json)
    ensures
        r@ == canon_operation(o.deep_view()),
{
    broadcast use lemma_view_json_entries, lemma_view_json_entries_push;

    let ghost ov = o.deep_view();
    let ghost e0 = extra_entries(ov.extra);
    let mut es = extra_to_entries(&o.extra);
    let ghost e1 = match ov.operation_id {
        Option::Some(id) => e0.push(("operationId"@, JsonV::Str(id))),
        Option::None => e0,
    };
    match &o.operation_id {
        Option::Some(id) => {
            es.push(("operationId".to_owned(), Json::Str(id.clone())));
        },
        Option::None => {},
    }
    assert(view_json_entries(es@) == e1);
    let ghost e2 = if ov.tags.len() > 0 {
        e1.push(("tags"@, JsonV::Arr(str_seq_to_json(ov.tags))))
    } else {
        e1
    };
    if o.tags.len() > 0 {
        es.push(("tags".to_owned(), Json::Arr(tags_to_json(&o.tags))));
    }
    assert(view_json_entries(es@) == e2);
    let ghost e3 = if ov.parameters.len() > 0 {
        e2.push(("parameters"@, JsonV::Arr(canon_parameter_seq(ov.parameters))))
    } else {
        e2
    };
    if o.parameters.len() > 0 {
        es.push(("parameters".to_owned(), Json::Arr(to_json_parameter_seq(&o.parameters))));
    }
    assert(view_json_entries(es@) == e3);
    let ghost e4 = match ov.request_body {
        Option::Some(b) => e3.push(("requestBody"@, canon_request_body(b))),
        Option::None => e3,
    };
    match &o.request_body {
        Option::Some(b) => {
            es.push(("requestBody".to_owned(), to_json_request_body(b)));
        },
        Option::None => {},
    }
    assert(view_json_entries(es@) == e4);
    let ghost e5 = e4.push(("responses"@, JsonV::Obj(canon_response_map(ov.responses))));
    es.push(("responses".to_owned(), Json::Obj(to_json_response_map(&o.responses))));
    assert(view_json_entries(es@) == e5);
    proof {
        assert(canon_operation(ov) == JsonV::Obj(e5));
    }
    Json::Obj(es)
}

/// The canonical form of a path item.
#[verifier::rlimit(60)]
pub fn to_json_path_item(p: &PathItem) -> (r: Json)
    ensures
        r@ == canon_path_item(p.deep_view()),
{
    broadcast use lemma_view_json_entries, lemma_view_json_entries_push;

    match p {
        PathItem::Ref(t) => ref_to_json(t),
        PathItem::Item {
            get,
            put,
            post,
            delete,
            options,
            head,
            patch,
            trace,
            parameters,
            extra,
        } => {
            let ghost pv = p.deep_view();
            let ghost e0 = extra_entries(view_json(*extra));
            let mut es = extra_to_entries(extra);
            let ghost e1 = canon_operation_entry("get"@, view_operation_opt(*get), e0);
            match get {
                Option::Some(op) => {
                    es.push(("get".to_owned(), to_json_operation(op)));
                },
                Option::None => {},
            }
            assert(view_json_entries(es@) == e1);
            let ghost e2 = canon_operation_entry("put"@, view_operation_opt(*put), e1);
            match put {
                Option::Some(op) => {
                    es.push(("put".to_owned(), to_json_operation(op)));
                },
                Option::None => {},
            }
            assert(view_json_entries(es@) == e2);
            let ghost e3 = canon_operation_entry("post"@, view_operation_opt(*post), e2);
            match post {
                Option::Some(op) => {
                    es.push(("post".to_owned(), to_json_operation(op)));
                },
                Option::None => {},
            }
            assert(view_json_entries(es@) == e3);
            let ghost e4 = canon_operation_entry("delete"@, view_operation_opt(*delete), e3);
            match delete {
                Option::Some(op) => {
                    es.push(("delete".to_owned(), to_json_operation(op)));
                },
                Option::None => {},
            }
            assert(view_json_entries(es@) == e4);
            let ghost e5 = canon_operation_entry("options"@, view_operation_opt(*options), e4);
            match options {
                Option::Some(op) => {
                    es.push(("options".to_owned(), to_json_operation(op)));
                },
                Option::None => {},
            }
            assert(view_json_entries(es@) == e5);
            let ghost e6 = canon_operation_entry("head"@, view_operation_opt(*head), e5);
            match head {
                Option::Some(op) => {
                    es.push(("head".to_owned(), to_json_operation(op)));
                },
                Option::None => {},
            }
            assert(view_json_entries(es@) == e6);
            let ghost e7 = canon_operation_entry("patch"@, view_operation_opt(*patch), e6);
            match patch {
                Option::Some(op) => {
                    es.push(("patch".to_owned(), to_json_operation(op)));
                },
                Option::None => {},
            }
            assert(view_json_entries(es@) == e7);
            let ghost e8 = canon_operation_entry("trace"@, view_operation_opt(*trace), e7);
            match trace {
                Option::Some(op) => {
                    es.push(("trace".to_owned(), to_json_operation(op)));
                },
                Option::None => {},
            }
            assert(view_json_entries(es@) == e8);
            let ghost e9 = if pv->Item_parameters.len() > 0 {
                e8.push(("parameters"@, JsonV::Arr(canon_parameter_seq(pv->Item_parameters))))
            } else {
                e8
            };
            if parameters.len() > 0 {
                es.push(("parameters".to_owned(), Json::Arr(to_json_parameter_seq(parameters))));
            }
            assert(view_json_entries(es@) == e9);
            proof {
                assert(canon_path_item(pv) == JsonV::Obj(e9));
            }
            Json::Obj(es)
        },
    }
}

/// The canonical forms of a named map of path items.
#[verifier::loop_isolation(false)]
pub fn to_json_path_item_map(v: &Vec<(String, PathItem)>) -> (r: Vec<(String, Json)>)
    ensures
        view_json_entries(r@) == canon_path_item_map(v.deep_view()),
{
    broadcast use lemma_view_json_entries, lemma_view_json_entries_push;

    let ghost full = v.deep_view();
    let mut out: Vec<(String, Json)> = Vec::new();
    let mut i: usize = 0;
    proof {
        assert(full.subrange(0, 0) =~= Seq::<(Seq<char>, PathItemV)>::empty());
    }
    while i < v.len()
        invariant
            0 <= i <= v@.len(),
            view_json_entries(out@) == canon_path_item_map(full.subrange(0, i as int)),
        decreases v@.len() - i,
    {
        let j = to_json_path_item(&v[i].1);
        out.push((v[i].0.clone(), j));
        proof {
            let post = full.subrange(0, i as int + 1);
            assert(post.subrange(0, post.len() - 1) =~= full.subrange(0, i as int));
            assert(full[i as int] == (v@[i as int].0@, v@[i as int].1.deep_view()));
        }
        i = i + 1;
    }
    proof {
        assert(full.subrange(0, full.len() as int) =~= full);
    }
    out
}

/// The canonical form of a callback.
pub fn to_json_callback(c: &Callback) -> (r: Json)
    ensures
        r@ == canon_callback(c.deep_view()),
{
    match c {
        Callback::Ref(t) => ref_to_json(t),
        Callback::Item(entries) => Json::Obj(to_json_path_item_map(entries)),
    }
}

/// The canonical form of a component value of any kind.
pub fn to_json_component(c: &Component) -> (r: Json)
    ensures
        r@ == canon_component(c.deep_view()),
{
    match c {
        Component::Schema(s) => to_json_schema(s),
        Component::Response(x) => to_json_response(x),
        Component::Parameter(x) => to_json_parameter(x),
        Component::Example(x) => to_json_json_or_ref(x),
        Component::RequestBody(x) => to_json_request_body(x),
        Component::Header(x) => to_json_parameter(x),
        Component::Link(x) => to_json_json_or_ref(x),
        Component::Callback(x) => to_json_callback(x),
    }
}

/// Whether two component values are structurally equal: their canonical
/// forms compared under [`json_eq`].
pub fn components_equal(x: &Component, y: &Component) -> (r: bool)
    ensures
        r == spec_components_equal(x.deep_view(), y.deep_view()),
{
    let a = to_json_component(x);
    let b = to_json_component(y);
    json_equal(&a, &b)
}

/// Whether two schema slots are structurally equal.
pub fn deep_equality_schema(x: &Schema, y: &Schema) -> (r: bool)
    ensures
        r == json_eq(canon_schema(x.deep_view()), canon_schema(y.deep_view())),
{
    let a = to_json_schema(x);
    let b = to_json_schema(y);
    json_equal(&a, &b)
}

} // verus!
