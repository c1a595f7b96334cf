//! The reference walker: visits every `$ref` site of a document and
//! rewrites the reference text through a rewrite table.
//!
//! The table maps old reference strings to new ones. A lookup takes the
//! exact entry when there is one; otherwise, when exactly one entry's key
//! extends the reference by a `/`-separated suffix, that entry's value is
//! taken; otherwise the reference is kept. (An ambiguous reference — more
//! than one extending key — is left unchanged.)

use vstd::prelude::*;
use vstd::string::StringExecFns;
use crate::json::Json;
use crate::json::view_json;
use crate::canonical::json_clone;
use crate::model::Schema;
use crate::model::SchemaV;
use crate::model::JsonOrRef;
use crate::model::JsonOrRefV;
use crate::model::MediaType;
use crate::model::MediaTypeV;
use crate::model::Parameter;
use crate::model::ParameterV;
use crate::model::RequestBody;
use crate::model::RequestBodyV;
use crate::model::Response;
use crate::model::ResponseV;
use crate::model::Operation;
use crate::model::OperationV;
use crate::model::PathItem;
use crate::model::PathItemV;
use crate::model::Callback;
use crate::model::CallbackV;
use crate::model::Component;
use crate::model::ComponentV;
use crate::model::Components;
use crate::model::ComponentsV;
use crate::model::Document;
use crate::model::DocumentV;
use crate::model::view_schema;
use crate::model::view_schema_seq;
use crate::model::view_schema_map;
use crate::model::view_schema_opt;
use crate::model::view_operation_opt;
use crate::model::lemma_view_schema_seq;
use crate::model::lemma_view_schema_map;
use crate::text::str_concat;
use crate::text::str_starts_with;

verus! {

/// A map from old reference string to new reference string.
pub struct RewriteTable {
    pub entries: Vec<(String, String)>,
}

impl View for RewriteTable {
    type V = Seq<(Seq<char>, Seq<char>)>;

    open spec fn view(&self) -> Seq<(Seq<char>, Seq<char>)> {
        self.entries.deep_view()
    }
}

/// The table with `key` bound to `value`: the first entry under `key` is
/// replaced, or a new entry is appended.
pub open spec fn spec_table_set(
    t: Seq<(Seq<char>, Seq<char>)>,
    key: Seq<char>,
    value: Seq<char>,
) -> Seq<(Seq<char>, Seq<char>)>
    decreases t.len(),
{
    if t.len() == 0 {
        seq![(key, value)]
    } else if t[0].0 == key {
        seq![(key, value)] + t.subrange(1, t.len() as int)
    } else {
        seq![t[0]] + spec_table_set(t.subrange(1, t.len() as int), key, value)
    }
}

/// The value at the first entry under `key`, if any.
pub open spec fn table_exact(t: Seq<(Seq<char>, Seq<char>)>, key: Seq<char>) -> Option<Seq<char>>
    decreases t.len(),
{
    if t.len() == 0 {
        Option::None
    } else if t[0].0 == key {
        Option::Some(t[0].1)
    } else {
        table_exact(t.subrange(1, t.len() as int), key)
    }
}

/// How many entries' keys begin with `needle`.
pub open spec fn ext_count(t: Seq<(Seq<char>, Seq<char>)>, needle: Seq<char>) -> nat
    decreases t.len(),
{
    if t.len() == 0 {
        0
    } else {
        ext_count(t.subrange(0, t.len() - 1), needle) + if needle.is_prefix_of(
            t[t.len() - 1].0,
        ) {
            1nat
        } else {
            0nat
        }
    }
}

/// The value of the first entry whose key begins with `needle`, if any.
pub open spec fn ext_first(t: Seq<(Seq<char>, Seq<char>)>, needle: Seq<char>) -> Option<Seq<char>>
    decreases t.len(),
{
    if t.len() == 0 {
        Option::None
    } else {
        match ext_first(t.subrange(0, t.len() - 1), needle) {
            Option::Some(v) => Option::Some(v),
            Option::None => if needle.is_prefix_of(t[t.len() - 1].0) {
                Option::Some(t[t.len() - 1].1)
            } else {
                Option::None
            },
        }
    }
}

/// What a reference is rewritten to: its exact entry when present, else
/// the value of the single entry extending it by `/`, else itself.
pub open spec fn spec_rewrite_ref(t: Seq<(Seq<char>, Seq<char>)>, r: Seq<char>) -> Seq<char> {
    match table_exact(t, r) {
        Option::Some(v) => v,
        Option::None => {
            let needle = r + "/"@;
            if ext_count(t, needle) == 1 {
                match ext_first(t, needle) {
                    Option::Some(v) => v,
                    Option::None => r,
                }
            } else {
                r
            }
        },
    }
}

proof fn lemma_table_set_found(
    t: Seq<(Seq<char>, Seq<char>)>,
    key: Seq<char>,
    value: Seq<char>,
    i: int,
)
    requires
        0 <= i < t.len(),
        t[i].0 == key,
        forall|j: int| 0 <= j < i ==> (#[trigger] t[j]).0 != key,
    ensures
        spec_table_set(t, key, value) =~= t.update(i, (key, value)),
    decreases i,
{
    if i == 0 {
    } else {
        let tail = t.subrange(1, t.len() as int);
        assert(tail[i - 1] == t[i]);
        assert forall|j: int| 0 <= j < i - 1 implies (#[trigger] tail[j]).0 != key by {
            assert(tail[j] == t[j + 1]);
        }
        lemma_table_set_found(tail, key, value, i - 1);
        assert(spec_table_set(t, key, value) =~= t.update(i, (key, value)));
    }
}

proof fn lemma_table_set_missing(t: Seq<(Seq<char>, Seq<char>)>, key: Seq<char>, value: Seq<char>)
    requires
        forall|j: int| 0 <= j < t.len() ==> (#[trigger] t[j]).0 != key,
    ensures
        spec_table_set(t, key, value) =~= t.push((key, value)),
    decreases t.len(),
{
    if t.len() > 0 {
        let tail = t.subrange(1, t.len() as int);
        assert forall|j: int| 0 <= j < tail.len() implies (#[trigger] tail[j]).0 != key by {
            assert(tail[j] == t[j + 1]);
        }
        lemma_table_set_missing(tail, key, value);
        assert(spec_table_set(t, key, value) =~= t.push((key, value)));
    }
}

impl RewriteTable {
    /// An empty table.
    pub fn new() -> (r: RewriteTable)
        ensures
            r@ == Seq::<(Seq<char>, Seq<char>)>::empty(),
    {
        let r = RewriteTable { entries: Vec::new() };
        proof {
            assert(r@ =~= Seq::<(Seq<char>, Seq<char>)>::empty());
        }
        r
    }

    /// Bind `key` to `value`, replacing an existing entry under `key`.
    #[verifier::loop_isolation(false)]
    pub fn set(&mut self, key: String, value: String)
        ensures
            final(self)@ == spec_table_set(old(self)@, key@, value@),
    {
        let n = self.entries.len();
        let mut i: usize = 0;
        while i < n
            invariant
                0 <= i <= n,
                n == self.entries.len(),
                *self == *old(self),
                forall|j: int| 0 <= j < i ==> (#[trigger] self@[j]).0 != key@,
            decreases n - i,
        {
            if self.entries[i].0 == key {
                proof {
                    lemma_table_set_found(self@, key@, value@, i as int);
                }
                self.entries.set(i, (key, value));
                proof {
                    assert(self@ =~= spec_table_set(old(self)@, key@, value@));
                }
                return ;
            }
            i = i + 1;
        }
        proof {
            lemma_table_set_missing(self@, key@, value@);
        }
        self.entries.push((key, value));
        proof {
            assert(self@ =~= spec_table_set(old(self)@, key@, value@));
        }
    }

    /// Rewrite one reference string, following [`spec_rewrite_ref`].
    #[verifier::loop_isolation(false)]
    pub fn rewrite(&self, r: &String) -> (out: String)
        ensures
            out@ == spec_rewrite_ref(self@, r@),
    {
        let ghost t = self@;
        let n = self.entries.len();

        // Exact match first.
        proof {
            assert(t.subrange(0, t.len() as int) =~= t);
        }
        let mut i: usize = 0;
        while i < n
            invariant
                0 <= i <= n,
                n == t.len(),
                table_exact(t, r@) == table_exact(t.subrange(i as int, t.len() as int), r@),
            decreases n - i,
        {
            proof {
                let tail = t.subrange(i as int, t.len() as int);
                assert(tail[0] == t[i as int]);
                assert(tail.subrange(1, tail.len() as int) =~= t.subrange(
                    i as int + 1,
                    t.len() as int,
                ));
            }
            if self.entries[i].0 == *r {
                return self.entries[i].1.clone();
            }
            i = i + 1;
        }
        proof {
            assert(t.subrange(t.len() as int, t.len() as int) =~= Seq::<(
                Seq<char>,
                Seq<char>,
            )>::empty());
        }

        // Otherwise look for keys that extend the reference by a slash.
        let needle = str_concat(r.as_str(), "/");
        let mut count: usize = 0;
        let mut first: Option<&String> = Option::None;
        let mut i: usize = 0;
        proof {
            assert(t.subrange(0, 0) =~= Seq::<(Seq<char>, Seq<char>)>::empty());
        }
        while i < n
            invariant
                0 <= i <= n,
                n == t.len(),
                needle@ == r@ + "/"@,
                count == ext_count(t.subrange(0, i as int), needle@),
                match first {
                    Option::Some(v) => ext_first(t.subrange(0, i as int), needle@)
                        == Option::Some(v@),
                    Option::None => ext_first(t.subrange(0, i as int), needle@) is None,
                },
                (first is None) <==> count == 0,
                count <= i,
            decreases n - i,
        {
            proof {
                let post = t.subrange(0, i as int + 1);
                assert(post.subrange(0, post.len() - 1) =~= t.subrange(0, i as int));
                assert(post[post.len() - 1] == t[i as int]);
            }
            if str_starts_with(self.entries[i].0.as_str(), needle.as_str()) {
                if count == 0 {
                    first = Option::Some(&self.entries[i].1);
                }
                count = count + 1;
            }
            i = i + 1;
        }
        proof {
            assert(t.subrange(0, t.len() as int) =~= t);
        }
        if count == 1 {
            match first {
                Option::Some(v) => v.clone(),
                Option::None => r.clone(),
            }
        } else {
            r.clone()
        }
    }
}

// ------------------------------------------------------------------
// What walking does, on the mirrors.
// ------------------------------------------------------------------

pub open spec fn spec_walk_schema(s: SchemaV, t: Seq<(Seq<char>, Seq<char>)>) -> SchemaV
    decreases s,
{
    match s {
        SchemaV::Ref(r) => SchemaV::Ref(spec_rewrite_ref(t, r)),
        SchemaV::Inline {
            one_of,
            all_of,
            any_of,
            not,
            properties,
            additional_any,
            additional_schema,
            items,
            extra,
        } => SchemaV::Inline {
            one_of: spec_walk_schema_seq(one_of, t),
            all_of: spec_walk_schema_seq(all_of, t),
            any_of: spec_walk_schema_seq(any_of, t),
            not: spec_walk_schema_seq(not, t),
            properties: spec_walk_schema_map(properties, t),
            additional_any: additional_any,
            additional_schema: spec_walk_schema_seq(additional_schema, t),
            items: spec_walk_schema_seq(items, t),
            extra: extra,
        },
    }
}

pub open spec fn spec_walk_schema_seq(ss: Seq<SchemaV>, t: Seq<(Seq<char>, Seq<char>)>) -> Seq<
    SchemaV,
>
    decreases ss,
{
    if ss.len() == 0 {
        Seq::empty()
    } else {
        spec_walk_schema_seq(ss.subrange(0, ss.len() - 1), t).push(
            spec_walk_schema(ss[ss.len() - 1], t),
        )
    }
}

pub open spec fn spec_walk_schema_map(
    ps: Seq<(Seq<char>, SchemaV)>,
    t: Seq<(Seq<char>, Seq<char>)>,
) -> Seq<(Seq<char>, SchemaV)>
    decreases ps,
{
    if ps.len() == 0 {
        Seq::empty()
    } else {
        spec_walk_schema_map(ps.subrange(0, ps.len() - 1), t).push(
            (ps[ps.len() - 1].0, spec_walk_schema(ps[ps.len() - 1].1, t)),
        )
    }
}

pub open spec fn spec_walk_json_or_ref(v: JsonOrRefV, t: Seq<(Seq<char>, Seq<char>)>) -> JsonOrRefV {
    match v {
        JsonOrRefV::Ref(r) => JsonOrRefV::Ref(spec_rewrite_ref(t, r)),
        JsonOrRefV::Val(j) => JsonOrRefV::Val(j),
    }
}

pub open spec fn spec_walk_json_or_ref_map(
    es: Seq<(Seq<char>, JsonOrRefV)>,
    t: Seq<(Seq<char>, Seq<char>)>,
) -> Seq<(Seq<char>, JsonOrRefV)>
    decreases es,
{
    if es.len() == 0 {
        Seq::empty()
    } else {
        spec_walk_json_or_ref_map(es.subrange(0, es.len() - 1), t).push(
            (es[es.len() - 1].0, spec_walk_json_or_ref(es[es.len() - 1].1, t)),
        )
    }
}

pub open spec fn spec_walk_media_type(m: MediaTypeV, t: Seq<(Seq<char>, Seq<char>)>) -> MediaTypeV {
    MediaTypeV {
        schema: match m.schema {
            Option::Some(s) => Option::Some(spec_walk_schema(s, t)),
            Option::None => Option::None,
        },
        examples: spec_walk_json_or_ref_map(m.examples, t),
        extra: m.extra,
    }
}

pub open spec fn spec_walk_media_type_map(
    es: Seq<(Seq<char>, MediaTypeV)>,
    t: Seq<(Seq<char>, Seq<char>)>,
) -> Seq<(Seq<char>, MediaTypeV)>
    decreases es,
{
    if es.len() == 0 {
        Seq::empty()
    } else {
        spec_walk_media_type_map(es.subrange(0, es.len() - 1), t).push(
            (es[es.len() - 1].0, spec_walk_media_type(es[es.len() - 1].1, t)),
        )
    }
}

pub open spec fn spec_walk_parameter(p: ParameterV, t: Seq<(Seq<char>, Seq<char>)>) -> ParameterV {
    match p {
        ParameterV::Ref(r) => ParameterV::Ref(spec_rewrite_ref(t, r)),
        ParameterV::Item { schema, content, examples, extra } => ParameterV::Item {
            schema: match schema {
                Option::Some(s) => Option::Some(spec_walk_schema(s, t)),
                Option::None => Option::None,
            },
            content: spec_walk_media_type_map(content, t),
            examples: spec_walk_json_or_ref_map(examples, t),
            extra: extra,
        },
    }
}

pub open spec fn spec_walk_parameter_map(
    es: Seq<(Seq<char>, ParameterV)>,
    t: Seq<(Seq<char>, Seq<char>)>,
) -> Seq<(Seq<char>, ParameterV)>
    decreases es,
{
    if es.len() == 0 {
        Seq::empty()
    } else {
        spec_walk_parameter_map(es.subrange(0, es.len() - 1), t).push(
            (es[es.len() - 1].0, spec_walk_parameter(es[es.len() - 1].1, t)),
        )
    }
}

pub open spec fn spec_walk_parameter_seq(ps: Seq<ParameterV>, t: Seq<(Seq<char>, Seq<char>)>) -> Seq<
    ParameterV,
>
    decreases ps,
{
    if ps.len() == 0 {
        Seq::empty()
    } else {
        spec_walk_parameter_seq(ps.subrange(0, ps.len() - 1), t).push(
            spec_walk_parameter(ps[ps.len() - 1], t),
        )
    }
}

pub open spec fn spec_walk_request_body(r: RequestBodyV, t: Seq<(Seq<char>, Seq<char>)>) -> RequestBodyV {
    match r {
        RequestBodyV::Ref(s) => RequestBodyV::Ref(spec_rewrite_ref(t, s)),
        RequestBodyV::Item { content, extra } => RequestBodyV::Item {
            content: spec_walk_media_type_map(content, t),
            extra: extra,
        },
    }
}

pub open spec fn spec_walk_response(r: ResponseV, t: Seq<(Seq<char>, Seq<char>)>) -> ResponseV {
    match r {
        ResponseV::Ref(s) => ResponseV::Ref(spec_rewrite_ref(t, s)),
        ResponseV::Item { headers, content, links, extra } => ResponseV::Item {
            headers: spec_walk_parameter_map(headers, t),
            content: spec_walk_media_type_map(content, t),
            links: spec_walk_json_or_ref_map(links, t),
            extra: extra,
        },
    }
}

pub open spec fn spec_walk_response_map(
    es: Seq<(Seq<char>, ResponseV)>,
    t: Seq<(Seq<char>, Seq<char>)>,
) -> Seq<(Seq<char>, ResponseV)>
    decreases es,
{
    if es.len() == 0 {
        Seq::empty()
    } else {
        spec_walk_response_map(es.subrange(0, es.len() - 1), t).push(
            (es[es.len() - 1].0, spec_walk_response(es[es.len() - 1].1, t)),
        )
    }
}

pub open spec fn spec_walk_operation(o: OperationV, t: Seq<(Seq<char>, Seq<char>)>) -> OperationV {
    OperationV {
        operation_id: o.operation_id,
        tags: o.tags,
        parameters: spec_walk_parameter_seq(o.parameters, t),
        request_body: match o.request_body {
            Option::Some(b) => Option::Some(spec_walk_request_body(b, t)),
            Option::None => Option::None,
        },
        responses: spec_walk_response_map(o.responses, t),
        extra: o.extra,
    }
}

pub open spec fn spec_walk_operation_opt(
    o: Option<OperationV>,
    t: Seq<(Seq<char>, Seq<char>)>,
) -> Option<OperationV> {
    match o {
        Option::Some(op) => Option::Some(spec_walk_operation(op, t)),
        Option::None => Option::None,
    }
}

pub open spec fn spec_walk_path_item(p: PathItemV, t: Seq<(Seq<char>, Seq<char>)>) -> PathItemV {
    match p {
        PathItemV::Ref(r) => PathItemV::Ref(spec_rewrite_ref(t, r)),
        PathItemV::Item {
            get,
            put,
            post,
            delete,
            options,
            head,
            patch,
            trace,
            parameters,
            extra,
        } => PathItemV::Item {
            get: spec_walk_operation_opt(get, t),
            put: spec_walk_operation_opt(put, t),
            post: spec_walk_operation_opt(post, t),
            delete: spec_walk_operation_opt(delete, t),
            options: spec_walk_operation_opt(options, t),
            head: spec_walk_operation_opt(head, t),
            patch: spec_walk_operation_opt(patch, t),
            trace: spec_walk_operation_opt(trace, t),
            parameters: spec_walk_parameter_seq(parameters, t),
            extra: extra,
        },
    }
}

pub open spec fn spec_walk_path_item_map(
    es: Seq<(Seq<char>, PathItemV)>,
    t: Seq<(Seq<char>, Seq<char>)>,
) -> Seq<(Seq<char>, PathItemV)>
    decreases es,
{
    if es.len() == 0 {
        Seq::empty()
    } else {
        spec_walk_path_item_map(es.subrange(0, es.len() - 1), t).push(
            (es[es.len() - 1].0, spec_walk_path_item(es[es.len() - 1].1, t)),
        )
    }
}

pub open spec fn spec_walk_callback(c: CallbackV, t: Seq<(Seq<char>, Seq<char>)>) -> CallbackV {
    match c {
        CallbackV::Ref(r) => CallbackV::Ref(spec_rewrite_ref(t, r)),
        CallbackV::Item(es) => CallbackV::Item(spec_walk_path_item_map(es, t)),
    }
}

pub open spec fn spec_walk_component(c: ComponentV, t: Seq<(Seq<char>, Seq<char>)>) -> ComponentV {
    match c {
        ComponentV::Schema(s) => ComponentV::Schema(spec_walk_schema(s, t)),
        ComponentV::Response(r) => ComponentV::Response(spec_walk_response(r, t)),
        ComponentV::Parameter(p) => ComponentV::Parameter(spec_walk_parameter(p, t)),
        ComponentV::Example(e) => ComponentV::Example(spec_walk_json_or_ref(e, t)),
        ComponentV::RequestBody(r) => ComponentV::RequestBody(spec_walk_request_body(r, t)),
        ComponentV::Header(h) => ComponentV::Header(spec_walk_parameter(h, t)),
        ComponentV::Link(l) => ComponentV::Link(spec_walk_json_or_ref(l, t)),
        ComponentV::Callback(cb) => ComponentV::Callback(spec_walk_callback(cb, t)),
    }
}

pub open spec fn spec_walk_component_map(
    es: Seq<(Seq<char>, ComponentV)>,
    t: Seq<(Seq<char>, Seq<char>)>,
) -> Seq<(Seq<char>, ComponentV)>
    decreases es,
{
    if es.len() == 0 {
        Seq::empty()
    } else {
        spec_walk_component_map(es.subrange(0, es.len() - 1), t).push(
            (es[es.len() - 1].0, spec_walk_component(es[es.len() - 1].1, t)),
        )
    }
}

/// Walking a components region rewrites the eight renameable kinds and
/// leaves the security schemes untouched.
pub open spec fn spec_walk_components(c: ComponentsV, t: Seq<(Seq<char>, Seq<char>)>) -> ComponentsV {
    ComponentsV {
        schemas: spec_walk_component_map(c.schemas, t),
        responses: spec_walk_component_map(c.responses, t),
        parameters: spec_walk_component_map(c.parameters, t),
        examples: spec_walk_component_map(c.examples, t),
        request_bodies: spec_walk_component_map(c.request_bodies, t),
        headers: spec_walk_component_map(c.headers, t),
        links: spec_walk_component_map(c.links, t),
        callbacks: spec_walk_component_map(c.callbacks, t),
        security_schemes: c.security_schemes,
        extra: c.extra,
    }
}

/// Walking a whole document rewrites its path items and its components.
pub open spec fn spec_walk_document(d: DocumentV, t: Seq<(Seq<char>, Seq<char>)>) -> DocumentV {
    DocumentV {
        openapi: d.openapi,
        info: d.info,
        servers: d.servers,
        paths: spec_walk_path_item_map(d.paths, t),
        components: match d.components {
            Option::Some(c) => Option::Some(spec_walk_components(c, t)),
            Option::None => Option::None,
        },
        security: d.security,
        tags: d.tags,
        external_docs: d.external_docs,
        extensions: d.extensions,
    }
}

// ------------------------------------------------------------------
// Walking with an empty table changes nothing.
// ------------------------------------------------------------------

/// The empty rewrite table.
pub open spec fn empty_table() -> Seq<(Seq<char>, Seq<char>)> {
    Seq::empty()
}

pub proof fn lemma_rewrite_ref_empty(r: Seq<char>)
    ensures
        spec_rewrite_ref(empty_table(), r) == r,
{
}

pub proof fn lemma_walk_schema_empty(s: SchemaV)
    ensures
        spec_walk_schema(s, empty_table()) == s,
    decreases s,
{
    match s {
        SchemaV::Ref(r) => {
            lemma_rewrite_ref_empty(r);
        },
        SchemaV::Inline {
            one_of,
            all_of,
            any_of,
            not,
            properties,
            additional_any,
            additional_schema,
            items,
            extra,
        } => {
            lemma_walk_schema_seq_empty(one_of);
            lemma_walk_schema_seq_empty(all_of);
            lemma_walk_schema_seq_empty(any_of);
            lemma_walk_schema_seq_empty(not);
            lemma_walk_schema_map_empty(properties);
            lemma_walk_schema_seq_empty(additional_schema);
            lemma_walk_schema_seq_empty(items);
        },
    }
}

pub proof fn lemma_walk_schema_seq_empty(ss: Seq<SchemaV>)
    ensures
        spec_walk_schema_seq(ss, empty_table()) == ss,
    decreases ss,
{
    if ss.len() > 0 {
        lemma_walk_schema_seq_empty(ss.subrange(0, ss.len() - 1));
        lemma_walk_schema_empty(ss[ss.len() - 1]);
        assert(spec_walk_schema_seq(ss, empty_table()) =~= ss);
    } else {
        assert(spec_walk_schema_seq(ss, empty_table()) =~= ss);
    }
}

pub proof fn lemma_walk_schema_map_empty(ps: Seq<(Seq<char>, SchemaV)>)
    ensures
        spec_walk_schema_map(ps, empty_table()) == ps,
    decreases ps,
{
    if ps.len() > 0 {
        lemma_walk_schema_map_empty(ps.subrange(0, ps.len() - 1));
        lemma_walk_schema_empty(ps[ps.len() - 1].1);
        assert(spec_walk_schema_map(ps, empty_table()) =~= ps);
    } else {
        assert(spec_walk_schema_map(ps, empty_table()) =~= ps);
    }
}

pub proof fn lemma_walk_json_or_ref_empty(v: JsonOrRefV)
    ensures
        spec_walk_json_or_ref(v, empty_table()) == v,
{
    match v {
        JsonOrRefV::Ref(r) => {
            lemma_rewrite_ref_empty(r);
        },
        JsonOrRefV::Val(_) => {},
    }
}

pub proof fn lemma_walk_json_or_ref_map_empty(es: Seq<(Seq<char>, JsonOrRefV)>)
    ensures
        spec_walk_json_or_ref_map(es, empty_table()) == es,
    decreases es,
{
    if es.len() > 0 {
        lemma_walk_json_or_ref_map_empty(es.subrange(0, es.len() - 1));
        lemma_walk_json_or_ref_empty(es[es.len() - 1].1);
        assert(spec_walk_json_or_ref_map(es, empty_table()) =~= es);
    } else {
        assert(spec_walk_json_or_ref_map(es, empty_table()) =~= es);
    }
}

pub proof fn lemma_walk_media_type_empty(m: MediaTypeV)
    ensures
        spec_walk_media_type(m, empty_table()) == m,
{
    match m.schema {
        Option::Some(s) => {
            lemma_walk_schema_empty(s);
        },
        Option::None => {},
    }
    lemma_walk_json_or_ref_map_empty(m.examples);
}

pub proof fn lemma_walk_media_type_map_empty(es: Seq<(Seq<char>, MediaTypeV)>)
    ensures
        spec_walk_media_type_map(es, empty_table()) == es,
    decreases es,
{
    if es.len() > 0 {
        lemma_walk_media_type_map_empty(es.subrange(0, es.len() - 1));
        lemma_walk_media_type_empty(es[es.len() - 1].1);
        assert(spec_walk_media_type_map(es, empty_table()) =~= es);
    } else {
        assert(spec_walk_media_type_map(es, empty_table()) =~= es);
    }
}

pub proof fn lemma_walk_parameter_empty(p: ParameterV)
    ensures
        spec_walk_parameter(p, empty_table()) == p,
{
    match p {
        ParameterV::Ref(r) => {
            lemma_rewrite_ref_empty(r);
        },
        ParameterV::Item { schema, content, examples, .. } => {
            match schema {
                Option::Some(s) => {
                    lemma_walk_schema_empty(s);
                },
                Option::None => {},
            }
            lemma_walk_media_type_map_empty(content);
            lemma_walk_json_or_ref_map_empty(examples);
        },
    }
}

pub proof fn lemma_walk_parameter_map_empty(es: Seq<(Seq<char>, ParameterV)>)
    ensures
        spec_walk_parameter_map(es, empty_table()) == es,
    decreases es,
{
    if es.len() > 0 {
        lemma_walk_parameter_map_empty(es.subrange(0, es.len() - 1));
        lemma_walk_parameter_empty(es[es.len() - 1].1);
        assert(spec_walk_parameter_map(es, empty_table()) =~= es);
    } else {
        assert(spec_walk_parameter_map(es, empty_table()) =~= es);
    }
}

pub proof fn lemma_walk_parameter_seq_empty(ps: Seq<ParameterV>)
    ensures
        spec_walk_parameter_seq(ps, empty_table()) == ps,
    decreases ps,
{
    if ps.len() > 0 {
        lemma_walk_parameter_seq_empty(ps.subrange(0, ps.len() - 1));
        lemma_walk_parameter_empty(ps[ps.len() - 1]);
        assert(spec_walk_parameter_seq(ps, empty_table()) =~= ps);
    } else {
        assert(spec_walk_parameter_seq(ps, empty_table()) =~= ps);
    }
}

pub proof fn lemma_walk_request_body_empty(r: RequestBodyV)
    ensures
        spec_walk_request_body(r, empty_table()) == r,
{
    match r {
        RequestBodyV::Ref(s) => {
            lemma_rewrite_ref_empty(s);
        },
        RequestBodyV::Item { content, .. } => {
            lemma_walk_media_type_map_empty(content);
        },
    }
}

pub proof fn lemma_walk_response_empty(r: ResponseV)
    ensures
        spec_walk_response(r, empty_table()) == r,
{
    match r {
        ResponseV::Ref(s) => {
            lemma_rewrite_ref_empty(s);
        },
        ResponseV::Item { headers, content, links, .. } => {
            lemma_walk_parameter_map_empty(headers);
            lemma_walk_media_type_map_empty(content);
            lemma_walk_json_or_ref_map_empty(links);
        },
    }
}

pub proof fn lemma_walk_response_map_empty(es: Seq<(Seq<char>, ResponseV)>)
    ensures
        spec_walk_response_map(es, empty_table()) == es,
    decreases es,
{
    if es.len() > 0 {
        lemma_walk_response_map_empty(es.subrange(0, es.len() - 1));
        lemma_walk_response_empty(es[es.len() - 1].1);
        assert(spec_walk_response_map(es, empty_table()) =~= es);
    } else {
        assert(spec_walk_response_map(es, empty_table()) =~= es);
    }
}

pub proof fn lemma_walk_operation_empty(o: OperationV)
    ensures
        spec_walk_operation(o, empty_table()) == o,
{
    lemma_walk_parameter_seq_empty(o.parameters);
    match o.request_body {
        Option::Some(b) => {
            lemma_walk_request_body_empty(b);
        },
        Option::None => {},
    }
    lemma_walk_response_map_empty(o.responses);
}

pub proof fn lemma_walk_operation_opt_empty(o: Option<OperationV>)
    ensures
        spec_walk_operation_opt(o, empty_table()) == o,
{
    match o {
        Option::Some(op) => {
            lemma_walk_operation_empty(op);
        },
        Option::None => {},
    }
}

pub proof fn lemma_walk_path_item_empty(p: PathItemV)
    ensures
        spec_walk_path_item(p, empty_table()) == p,
{
    match p {
        PathItemV::Ref(r) => {
            lemma_rewrite_ref_empty(r);
        },
        PathItemV::Item { get, put, post, delete, options, head, patch, trace, parameters, .. } => {
            lemma_walk_operation_opt_empty(get);
            lemma_walk_operation_opt_empty(put);
            lemma_walk_operation_opt_empty(post);
            lemma_walk_operation_opt_empty(delete);
            lemma_walk_operation_opt_empty(options);
            lemma_walk_operation_opt_empty(head);
            lemma_walk_operation_opt_empty(patch);
            lemma_walk_operation_opt_empty(trace);
            lemma_walk_parameter_seq_empty(parameters);
        },
    }
}

pub proof fn lemma_walk_path_item_map_empty(es: Seq<(Seq<char>, PathItemV)>)
    ensures
        spec_walk_path_item_map(es, empty_table()) == es,
    decreases es,
{
    if es.len() > 0 {
        lemma_walk_path_item_map_empty(es.subrange(0, es.len() - 1));
        lemma_walk_path_item_empty(es[es.len() - 1].1);
        assert(spec_walk_path_item_map(es, empty_table()) =~= es);
    } else {
        assert(spec_walk_path_item_map(es, empty_table()) =~= es);
    }
}

pub proof fn lemma_walk_callback_empty(c: CallbackV)
    ensures
        spec_walk_callback(c, empty_table()) == c,
{
    match c {
        CallbackV::Ref(r) => {
            lemma_rewrite_ref_empty(r);
        },
        CallbackV::Item(es) => {
            lemma_walk_path_item_map_empty(es);
        },
    }
}

pub proof fn lemma_walk_component_empty(c: ComponentV)
    ensures
        spec_walk_component(c, empty_table()) == c,
{
    match c {
        ComponentV::Schema(s) => {
            lemma_walk_schema_empty(s);
        },
        ComponentV::Response(r) => {
            lemma_walk_response_empty(r);
        },
        ComponentV::Parameter(p) => {
            lemma_walk_parameter_empty(p);
        },
        ComponentV::Example(e) => {
            lemma_walk_json_or_ref_empty(e);
        },
        ComponentV::RequestBody(r) => {
            lemma_walk_request_body_empty(r);
        },
        ComponentV::Header(h) => {
            lemma_walk_parameter_empty(h);
        },
        ComponentV::Link(l) => {
            lemma_walk_json_or_ref_empty(l);
        },
        ComponentV::Callback(cb) => {
            lemma_walk_callback_empty(cb);
        },
    }
}

pub proof fn lemma_walk_component_map_empty(es: Seq<(Seq<char>, ComponentV)>)
    ensures
        spec_walk_component_map(es, empty_table()) == es,
    decreases es,
{
    if es.len() > 0 {
        lemma_walk_component_map_empty(es.subrange(0, es.len() - 1));
        lemma_walk_component_empty(es[es.len() - 1].1);
        assert(spec_walk_component_map(es, empty_table()) =~= es);
    } else {
        assert(spec_walk_component_map(es, empty_table()) =~= es);
    }
}

pub proof fn lemma_walk_components_empty(c: ComponentsV)
    ensures
        spec_walk_components(c, empty_table()) == c,
{
    lemma_walk_component_map_empty(c.schemas);
    lemma_walk_component_map_empty(c.responses);
    lemma_walk_component_map_empty(c.parameters);
    lemma_walk_component_map_empty(c.examples);
    lemma_walk_component_map_empty(c.request_bodies);
    lemma_walk_component_map_empty(c.headers);
    lemma_walk_component_map_empty(c.links);
    lemma_walk_component_map_empty(c.callbacks);
}

/// Walking a document with the empty table returns it unchanged.
pub proof fn lemma_walk_document_empty(d: DocumentV)
    ensures
        spec_walk_document(d, empty_table()) == d,
{
    lemma_walk_path_item_map_empty(d.paths);
    match d.components {
        Option::Some(c) => {
            lemma_walk_components_empty(c);
        },
        Option::None => {},
    }
}

// ------------------------------------------------------------------
// Executable walkers. Each builds a rewritten copy of its input.
// ------------------------------------------------------------------

/// Rewrite every reference inside a schema.
#[verifier::loop_isolation(false)]
pub fn walk_schema_references(s: &Schema, t: &RewriteTable) -> (r: Schema)
    ensures
        view_schema(r) == spec_walk_schema(view_schema(*s), t@),
    decreases *s,
{
    match s {
        Schema::Ref(target) => Schema::Ref(t.rewrite(target)),
        Schema::Inline {
            one_of,
            all_of,
            any_of,
            not,
            properties,
            additional_any,
            additional_schema,
            items,
            extra,
        } => {
            proof {
                assert(decreases_to!(*s => *all_of));
                assert(decreases_to!(*s => *one_of));
                assert(decreases_to!(*s => *any_of));
                assert(decreases_to!(*s => *not));
                assert(decreases_to!(*s => *properties));
                assert(decreases_to!(*s => *additional_schema));
                assert(decreases_to!(*s => *items));
            }
            Schema::Inline {
                one_of: walk_schema_seq(one_of, t),
                all_of: walk_schema_seq(all_of, t),
                any_of: walk_schema_seq(any_of, t),
                not: walk_schema_opt(not, t),
                properties: walk_schema_map(properties, t),
                additional_any: *additional_any,
                additional_schema: walk_schema_opt(additional_schema, t),
                items: walk_schema_opt(items, t),
                extra: json_clone(extra),
            }
        },
    }
}

#[verifier::loop_isolation(false)]
fn walk_schema_seq(v: &Vec<Schema>, t: &RewriteTable) -> (r: Vec<Schema>)
    ensures
        view_schema_seq(r@) == spec_walk_schema_seq(view_schema_seq(v@), t@),
    decreases *v,
{
    broadcast use lemma_view_schema_seq;

    let ghost full = view_schema_seq(v@);
    let mut out: Vec<Schema> = Vec::new();
    let mut i: usize = 0;
    proof {
        assert(view_schema_seq(out@) =~= Seq::<SchemaV>::empty());
        assert(full.subrange(0, 0) =~= Seq::<SchemaV>::empty());
    }
    while i < v.len()
        invariant
            0 <= i <= v@.len(),
            view_schema_seq(out@) == spec_walk_schema_seq(full.subrange(0, i as int), t@),
            out@.len() == i,
        decreases v@.len() - i,
    {
        proof {
            assert(decreases_to!(*v => v@[i as int]));
        }
        let ghost pre_out = out@;
        let w = walk_schema_references(&v[i], t);
        out.push(w);
        proof {
            assert(out@ =~= pre_out.push(w));
            assert(view_schema_seq(out@) =~= view_schema_seq(pre_out).push(view_schema(w)));
            let post = full.subrange(0, i as int + 1);
            assert(post.subrange(0, post.len() - 1) =~= full.subrange(0, i as int));
            assert(post[i as int] == view_schema(v@[i as int]));
            assert(spec_walk_schema_seq(post, t@) == spec_walk_schema_seq(
                full.subrange(0, i as int),
                t@,
            ).push(spec_walk_schema(view_schema(v@[i as int]), t@)));
        }
        i = i + 1;
    }
    proof {
        assert(full.subrange(0, full.len() as int) =~= full);
    }
    out
}

#[verifier::loop_isolation(false)]
fn walk_schema_map(v: &Vec<(String, Schema)>, t: &RewriteTable) -> (r: Vec<(String, Schema)>)
    ensures
        view_schema_map(r@) == spec_walk_schema_map(view_schema_map(v@), t@),
    decreases *v,
{
    broadcast use lemma_view_schema_map;

    let ghost full = view_schema_map(v@);
    let mut out: Vec<(String, Schema)> = Vec::new();
    let mut i: usize = 0;
    proof {
        assert(view_schema_map(out@) =~= Seq::<(Seq<char>, SchemaV)>::empty());
        assert(full.subrange(0, 0) =~= Seq::<(Seq<char>, SchemaV)>::empty());
    }
    while i < v.len()
        invariant
            0 <= i <= v@.len(),
            view_schema_map(out@) == spec_walk_schema_map(full.subrange(0, i as int), t@),
            out@.len() == i,
        decreases v@.len() - i,
    {
        proof {
            assert(decreases_to!(*v => v@[i as int]));
            assert(decreases_to!(v@[i as int] => v@[i as int].1));
        }
        let ghost pre_out = out@;
        let w = walk_schema_references(&v[i].1, t);
        let k = v[i].0.clone();
        out.push((k, w));
        proof {
            assert(view_schema_map(out@) =~= view_schema_map(pre_out).push(
                (v@[i as int].0@, view_schema(w)),
            ));
            let post = full.subrange(0, i as int + 1);
            assert(post.subrange(0, post.len() - 1) =~= full.subrange(0, i as int));
            assert(post[i as int] == (v@[i as int].0@, view_schema(v@[i as int].1)));
            assert(spec_walk_schema_map(post, t@) == spec_walk_schema_map(
                full.subrange(0, i as int),
                t@,
            ).push((v@[i as int].0@, spec_walk_schema(view_schema(v@[i as int].1), t@))));
        }
        i = i + 1;
    }
    proof {
        assert(full.subrange(0, full.len() as int) =~= full);
    }
    out
}

#[verifier::loop_isolation(false)]
fn walk_schema_opt(v: &Option<Box<Schema>>, t: &RewriteTable) -> (r: Option<Box<Schema>>)
    ensures
        view_schema_opt(r) == spec_walk_schema_seq(view_schema_opt(*v), t@),
    decreases *v,
{
    match v {
        Option::Some(b) => {
            proof {
                assert(decreases_to!(*v => *b));
            }
            let w = walk_schema_references(&**b, t);
            let r = Option::Some(Box::new(w));
            proof {
                let pre = view_schema_opt(*v);
                assert(pre =~= seq![view_schema(**b)]);
                assert(pre.subrange(0, 0) =~= Seq::<SchemaV>::empty());
                assert(spec_walk_schema_seq(Seq::<SchemaV>::empty(), t@) =~= Seq::<
                    SchemaV,
                >::empty());
                assert(pre[0] == view_schema(**b));
                assert(spec_walk_schema_seq(pre, t@) =~= seq![
                    spec_walk_schema(view_schema(**b), t@),
                ]);
                assert(view_schema_opt(r) =~= seq![view_schema(w)]);
            }
            r
        },
        Option::None => {
            proof {
                assert(view_schema_opt(Option::<Box<Schema>>::None) =~= Seq::<SchemaV>::empty());
                assert(spec_walk_schema_seq(Seq::<SchemaV>::empty(), t@) =~= Seq::<
                    SchemaV,
                >::empty());
            }
            Option::None
        },
    }
}

/// Rewrite the reference of an example or link slot, when it is one.
pub fn walk_example_references(v: &JsonOrRef, t: &RewriteTable) -> (r: JsonOrRef)
    ensures
        r.deep_view() == spec_walk_json_or_ref(v.deep_view(), t@),
{
    match v {
        JsonOrRef::Ref(target) => JsonOrRef::Ref(t.rewrite(target)),
        JsonOrRef::Val(j) => JsonOrRef::Val(json_clone(j)),
    }
}

#[verifier::loop_isolation(false)]
fn walk_json_or_ref_map(v: &Vec<(String, JsonOrRef)>, t: &RewriteTable) -> (r: Vec<
    (String, JsonOrRef),
>)
    ensures
        r.deep_view() == spec_walk_json_or_ref_map(v.deep_view(), t@),
{
    let ghost full = v.deep_view();
    let mut out: Vec<(String, JsonOrRef)> = Vec::new();
    let mut i: usize = 0;
    proof {
        assert(full.subrange(0, 0) =~= Seq::<(Seq<char>, JsonOrRefV)>::empty());
        assert(out.deep_view() =~= Seq::<(Seq<char>, JsonOrRefV)>::empty());
    }
    while i < v.len()
        invariant
            0 <= i <= v@.len(),
            out.deep_view() == spec_walk_json_or_ref_map(full.subrange(0, i as int), t@),
            out@.len() == i,
        decreases v@.len() - i,
    {
        let ghost pre = out.deep_view();
        let w = walk_example_references(&v[i].1, t);
        out.push((v[i].0.clone(), w));
        proof {
            assert(out.deep_view() =~= pre.push((v@[i as int].0@, w.deep_view())));
            let post = full.subrange(0, i as int + 1);
            assert(post.subrange(0, post.len() - 1) =~= full.subrange(0, i as int));
            assert(post[i as int] == (v@[i as int].0@, v@[i as int].1.deep_view()));
        }
        i = i + 1;
    }
    proof {
        assert(full.subrange(0, full.len() as int) =~= full);
    }
    out
}

/// Rewrite every reference inside a media type.
pub fn walk_media_type_references(m: &MediaType, t: &RewriteTable) -> (r: MediaType)
    ensures
        r.deep_view() == spec_walk_media_type(m.deep_view(), t@),
{
    MediaType {
        schema: match &m.schema {
            Option::Some(s) => Option::Some(walk_schema_references(s, t)),
            Option::None => Option::None,
        },
        examples: walk_json_or_ref_map(&m.examples, t),
        extra: json_clone(&m.extra),
    }
}

#[verifier::loop_isolation(false)]
fn walk_media_type_map(v: &Vec<(String, MediaType)>, t: &RewriteTable) -> (r: Vec<
    (String, MediaType),
>)
    ensures
        r.deep_view() == spec_walk_media_type_map(v.deep_view(), t@),
{
    let ghost full = v.deep_view();
    let mut out: Vec<(String, MediaType)> = Vec::new();
    let mut i: usize = 0;
    proof {
        assert(full.subrange(0, 0) =~= Seq::<(Seq<char>, MediaTypeV)>::empty());
        assert(out.deep_view() =~= Seq::<(Seq<char>, MediaTypeV)>::empty());
    }
    while i < v.len()
        invariant
            0 <= i <= v@.len(),
            out.deep_view() == spec_walk_media_type_map(full.subrange(0, i as int), t@),
            out@.len() == i,
        decreases v@.len() - i,
    {
        let ghost pre = out.deep_view();
        let w = walk_media_type_references(&v[i].1, t);
        out.push((v[i].0.clone(), w));
        proof {
            assert(out.deep_view() =~= pre.push((v@[i as int].0@, w.deep_view())));
            let post = full.subrange(0, i as int + 1);
            assert(post.subrange(0, post.len() - 1) =~= full.subrange(0, i as int));
            assert(post[i as int] == (v@[i as int].0@, v@[i as int].1.deep_view()));
        }
        i = i + 1;
    }
    proof {
        assert(full.subrange(0, full.len() as int) =~= full);
    }
    out
}

/// Rewrite every reference inside a parameter or header.
pub fn walk_parameter_references(p: &Parameter, t: &RewriteTable) -> (r: Parameter)
    ensures
        r.deep_view() == spec_walk_parameter(p.deep_view(), t@),
{
    match p {
        Parameter::Ref(target) => Parameter::Ref(t.rewrite(target)),
        Parameter::Item { schema, content, examples, extra } => Parameter::Item {
            schema: match schema {
                Option::Some(s) => Option::Some(walk_schema_references(s, t)),
                Option::None => Option::None,
            },
            content: walk_media_type_map(content, t),
            examples: walk_json_or_ref_map(examples, t),
            extra: json_clone(extra),
        },
    }
}

#[verifier::loop_isolation(false)]
fn walk_parameter_map(v: &Vec<(String, Parameter)>, t: &RewriteTable) -> (r: Vec<
    (String, Parameter),
>)
    ensures
        r.deep_view() == spec_walk_parameter_map(v.deep_view(), t@),
{
    let ghost full = v.deep_view();
    let mut out: Vec<(String, Parameter)> = Vec::new();
    let mut i: usize = 0;
    proof {
        assert(full.subrange(0, 0) =~= Seq::<(Seq<char>, ParameterV)>::empty());
        assert(out.deep_view() =~= Seq::<(Seq<char>, ParameterV)>::empty());
    }
    while i < v.len()
        invariant
            0 <= i <= v@.len(),
            out.deep_view() == spec_walk_parameter_map(full.subrange(0, i as int), t@),
            out@.len() == i,
        decreases v@.len() - i,
    {
        let ghost pre = out.deep_view();
        let w = walk_parameter_references(&v[i].1, t);
        out.push((v[i].0.clone(), w));
        proof {
            assert(out.deep_view() =~= pre.push((v@[i as int].0@, w.deep_view())));
            let post = full.subrange(0, i as int + 1);
            assert(post.subrange(0, post.len() - 1) =~= full.subrange(0, i as int));
            assert(post[i as int] == (v@[i as int].0@, v@[i as int].1.deep_view()));
        }
        i = i + 1;
    }
    proof {
        assert(full.subrange(0, full.len() as int) =~= full);
    }
    out
}

#[verifier::loop_isolation(false)]
fn walk_parameter_seq(v: &Vec<Parameter>, t: &RewriteTable) -> (r: Vec<Parameter>)
    ensures
        r.deep_view() == spec_walk_parameter_seq(v.deep_view(), t@),
{
    let ghost full = v.deep_view();
    let mut out: Vec<Parameter> = Vec::new();
    let mut i: usize = 0;
    proof {
        assert(full.subrange(0, 0) =~= Seq::<ParameterV>::empty());
        assert(out.deep_view() =~= Seq::<ParameterV>::empty());
    }
    while i < v.len()
        invariant
            0 <= i <= v@.len(),
            out.deep_view() == spec_walk_parameter_seq(full.subrange(0, i as int), t@),
            out@.len() == i,
        decreases v@.len() - i,
    {
        let ghost pre = out.deep_view();
        let w = walk_parameter_references(&v[i], t);
        out.push(w);
        proof {
            assert(out.deep_view() =~= pre.push(w.deep_view()));
            let post = full.subrange(0, i as int + 1);
            assert(post.subrange(0, post.len() - 1) =~= full.subrange(0, i as int));
            assert(post[i as int] == v@[i as int].deep_view());
        }
        i = i + 1;
    }
    proof {
        assert(full.subrange(0, full.len() as int) =~= full);
    }
    out
}

/// Rewrite every reference inside a request body.
pub fn walk_request_body_references(b: &RequestBody, t: &RewriteTable) -> (r: RequestBody)
    ensures
        r.deep_view() == spec_walk_request_body(b.deep_view(), t@),
{
    match b {
        RequestBody::Ref(target) => RequestBody::Ref(t.rewrite(target)),
        RequestBody::Item { content, extra } => RequestBody::Item {
            content: walk_media_type_map(content, t),
            extra: json_clone(extra),
        },
    }
}

/// Rewrite every reference inside a response.
pub fn walk_response_references(resp: &Response, t: &RewriteTable) -> (r: Response)
    ensures
        r.deep_view() == spec_walk_response(resp.deep_view(), t@),
{
    match resp {
        Response::Ref(target) => Response::Ref(t.rewrite(target)),
        Response::Item { headers, content, links, extra } => Response::Item {
            headers: walk_parameter_map(headers, t),
            content: walk_media_type_map(content, t),
            links: walk_json_or_ref_map(links, t),
            extra: json_clone(extra),
        },
    }
}

#[verifier::loop_isolation(false)]
fn walk_response_map(v: &Vec<(String, Response)>, t: &RewriteTable) -> (r: Vec<(String, Response)>)
    ensures
        r.deep_view() == spec_walk_response_map(v.deep_view(), t@),
{
    let ghost full = v.deep_view();
    let mut out: Vec<(String, Response)> = Vec::new();
    let mut i: usize = 0;
    proof {
        assert(full.subrange(0, 0) =~= Seq::<(Seq<char>, ResponseV)>::empty());
        assert(out.deep_view() =~= Seq::<(Seq<char>, ResponseV)>::empty());
    }
    while i < v.len()
        invariant
            0 <= i <= v@.len(),
            out.deep_view() == spec_walk_response_map(full.subrange(0, i as int), t@),
            out@.len() == i,
        decreases v@.len() - i,
    {
        let ghost pre = out.deep_view();
        let w = walk_response_references(&v[i].1, t);
        out.push((v[i].0.clone(), w));
        proof {
            assert(out.deep_view() =~= pre.push((v@[i as int].0@, w.deep_view())));
            let post = full.subrange(0, i as int + 1);
            assert(post.subrange(0, post.len() - 1) =~= full.subrange(0, i as int));
            assert(post[i as int] == (v@[i as int].0@, v@[i as int].1.deep_view()));
        }
        i = i + 1;
    }
    proof {
        assert(full.subrange(0, full.len() as int) =~= full);
    }
    out
}

/// Rewrite every reference inside an operation.
pub fn walk_operation_references(o: &Operation, t: &RewriteTable) -> (r: Operation)
    ensures
        r.deep_view() == spec_walk_operation(o.deep_view(), t@),
{
    Operation {
        operation_id: crate::canonical::clone_opt_string(&o.operation_id),
        tags: crate::canonical::clone_string_vec(&o.tags),
        parameters: walk_parameter_seq(&o.parameters, t),
        request_body: match &o.request_body {
            Option::Some(b) => Option::Some(walk_request_body_references(b, t)),
            Option::None => Option::None,
        },
        responses: walk_response_map(&o.responses, t),
        extra: json_clone(&o.extra),
    }
}

fn walk_operation_opt(o: &Option<Operation>, t: &RewriteTable) -> (r: Option<Operation>)
    ensures
        view_operation_opt(r) == spec_walk_operation_opt(view_operation_opt(*o), t@),
{
    match o {
        Option::Some(op) => Option::Some(walk_operation_references(op, t)),
        Option::None => Option::None,
    }
}

/// Rewrite every reference inside a path item.
pub fn walk_path_item_references(p: &PathItem, t: &RewriteTable) -> (r: PathItem)
    ensures
        r.deep_view() == spec_walk_path_item(p.deep_view(), t@),
{
    match p {
        PathItem::Ref(target) => PathItem::Ref(t.rewrite(target)),
        PathItem::Item {
            get,
            put,
            post,
            delete,
            options,
            head,
            patch,
            trace,
            parameters,
            extra,
        } => PathItem::Item {
            get: walk_operation_opt(get, t),
            put: walk_operation_opt(put, t),
            post: walk_operation_opt(post, t),
            delete: walk_operation_opt(delete, t),
            options: walk_operation_opt(options, t),
            head: walk_operation_opt(head, t),
            patch: walk_operation_opt(patch, t),
            trace: walk_operation_opt(trace, t),
            parameters: walk_parameter_seq(parameters, t),
            extra: json_clone(extra),
        },
    }
}

/// Rewrite every reference inside a named map of path items.
#[verifier::loop_isolation(false)]
pub fn walk_path_item_map(v: &Vec<(String, PathItem)>, t: &RewriteTable) -> (r: Vec<
    (String, PathItem),
>)
    ensures
        r.deep_view() == spec_walk_path_item_map(v.deep_view(), t@),
{
    let ghost full = v.deep_view();
    let mut out: Vec<(String, PathItem)> = Vec::new();
    let mut i: usize = 0;
    proof {
        assert(full.subrange(0, 0) =~= Seq::<(Seq<char>, PathItemV)>::empty());
        assert(out.deep_view() =~= Seq::<(Seq<char>, PathItemV)>::empty());
    }
    while i < v.len()
        invariant
            0 <= i <= v@.len(),
            out.deep_view() == spec_walk_path_item_map(full.subrange(0, i as int), t@),
            out@.len() == i,
        decreases v@.len() - i,
    {
        let ghost pre = out.deep_view();
        let w = walk_path_item_references(&v[i].1, t);
        out.push((v[i].0.clone(), w));
        proof {
            assert(out.deep_view() =~= pre.push((v@[i as int].0@, w.deep_view())));
            let post = full.subrange(0, i as int + 1);
            assert(post.subrange(0, post.len() - 1) =~= full.subrange(0, i as int));
            assert(post[i as int] == (v@[i as int].0@, v@[i as int].1.deep_view()));
        }
        i = i + 1;
    }
    proof {
        assert(full.subrange(0, full.len() as int) =~= full);
    }
    out
}

/// Rewrite every reference inside a callback.
pub fn walk_callback_references(c: &Callback, t: &RewriteTable) -> (r: Callback)
    ensures
        r.deep_view() == spec_walk_callback(c.deep_view(), t@),
{
    match c {
        Callback::Ref(target) => Callback::Ref(t.rewrite(target)),
        Callback::Item(entries) => Callback::Item(walk_path_item_map(entries, t)),
    }
}

/// Rewrite every reference inside one component value.
pub fn walk_component(c: &Component, t: &RewriteTable) -> (r: Component)
    ensures
        r.deep_view() == spec_walk_component(c.deep_view(), t@),
{
    match c {
        Component::Schema(s) => Component::Schema(walk_schema_references(s, t)),
        Component::Response(x) => Component::Response(walk_response_references(x, t)),
        Component::Parameter(x) => Component::Parameter(walk_parameter_references(x, t)),
        Component::Example(x) => Component::Example(walk_example_references(x, t)),
        Component::RequestBody(x) => Component::RequestBody(walk_request_body_references(x, t)),
        Component::Header(x) => Component::Header(walk_parameter_references(x, t)),
        Component::Link(x) => Component::Link(walk_example_references(x, t)),
        Component::Callback(x) => Component::Callback(walk_callback_references(x, t)),
    }
}

/// Rewrite every reference inside a named map of component values.
#[verifier::loop_isolation(false)]
pub fn walk_component_map(v: &Vec<(String, Component)>, t: &RewriteTable) -> (r: Vec<
    (String, Component),
>)
    ensures
        r.deep_view() == spec_walk_component_map(v.deep_view(), t@),
{
    let ghost full = v.deep_view();
    let mut out: Vec<(String, Component)> = Vec::new();
    let mut i: usize = 0;
    proof {
        assert(full.subrange(0, 0) =~= Seq::<(Seq<char>, ComponentV)>::empty());
        assert(out.deep_view() =~= Seq::<(Seq<char>, ComponentV)>::empty());
    }
    while i < v.len()
        invariant
            0 <= i <= v@.len(),
            out.deep_view() == spec_walk_component_map(full.subrange(0, i as int), t@),
            out@.len() == i,
        decreases v@.len() - i,
    {
        let ghost pre = out.deep_view();
        let w = walk_component(&v[i].1, t);
        out.push((v[i].0.clone(), w));
        proof {
            assert(out.deep_view() =~= pre.push((v@[i as int].0@, w.deep_view())));
            let post = full.subrange(0, i as int + 1);
            assert(post.subrange(0, post.len() - 1) =~= full.subrange(0, i as int));
            assert(post[i as int] == (v@[i as int].0@, v@[i as int].1.deep_view()));
        }
        i = i + 1;
    }
    proof {
        assert(full.subrange(0, full.len() as int) =~= full);
    }
    out
}

/// Rewrite every reference inside a components region; security schemes
/// are not touched.
pub fn walk_component_references(c: &Components, t: &RewriteTable) -> (r: Components)
    ensures
        r.deep_view() == spec_walk_components(c.deep_view(), t@),
{
    Components {
        schemas: walk_component_map(&c.schemas, t),
        responses: walk_component_map(&c.responses, t),
        parameters: walk_component_map(&c.parameters, t),
        examples: walk_component_map(&c.examples, t),
        request_bodies: walk_component_map(&c.request_bodies, t),
        headers: walk_component_map(&c.headers, t),
        links: walk_component_map(&c.links, t),
        callbacks: walk_component_map(&c.callbacks, t),
        security_schemes: crate::canonical::clone_json_entries(&c.security_schemes),
        extra: json_clone(&c.extra),
    }
}

/// Rewrite every reference in a whole document: its path items and its
/// components.
pub fn walk_all_references(d: &Document, t: &RewriteTable) -> (r: Document)
    ensures
        r.deep_view() == spec_walk_document(d.deep_view(), t@),
{
    Document {
        openapi: d.openapi.clone(),
        info: crate::canonical::clone_info(&d.info),
        servers: crate::canonical::clone_json_vec(&d.servers),
        paths: walk_path_item_map(&d.paths, t),
        components: match &d.components {
            Option::Some(c) => Option::Some(walk_component_references(c, t)),
            Option::None => Option::None,
        },
        security: match &d.security {
            Option::Some(s) => Option::Some(crate::canonical::clone_json_vec(s)),
            Option::None => Option::None,
        },
        tags: crate::canonical::clone_tag_vec(&d.tags),
        external_docs: match &d.external_docs {
            Option::Some(e) => Option::Some(json_clone(e)),
            Option::None => Option::None,
        },
        extensions: crate::canonical::clone_json_entries(&d.extensions),
    }
}

} // verus!
