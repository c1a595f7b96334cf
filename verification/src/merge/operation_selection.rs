//! Operation selection: filtering the operations of a document by tag.
//!
//! When an include list is given, only operations carrying one of its tags
//! survive; when an exclude list is given, operations carrying one of its
//! tags are then removed. Exclusion runs second and therefore wins for an
//! operation tagged with both an included and an excluded tag.

use vstd::prelude::*;
use crate::data::OperationSelection;
use crate::data::OperationSelectionV;
use crate::model::Document;
use crate::model::DocumentV;
use crate::model::Operation;
use crate::model::OperationV;
use crate::model::PathItem;
use crate::model::PathItemV;

verus! {

/// Whether `t` occurs in `tags`.
pub open spec fn tag_in(tags: Seq<Seq<char>>, t: Seq<char>) -> bool {
    exists|i: int| 0 <= i < tags.len() && tags[i] == t
}

/// Whether the operation carries any of `tags`.
pub open spec fn op_has_any_tag(o: OperationV, tags: Seq<Seq<char>>) -> bool {
    exists|i: int| 0 <= i < o.tags.len() && tag_in(tags, #[trigger] o.tags[i])
}

/// An operation slot after the include pass: kept only when it intersects
/// the include list.
pub open spec fn spec_include_op(o: Option<OperationV>, inc: Seq<Seq<char>>) -> Option<OperationV> {
    match o {
        Option::Some(op) => if op_has_any_tag(op, inc) {
            Option::Some(op)
        } else {
            Option::None
        },
        Option::None => Option::None,
    }
}

/// An operation slot after the exclude pass: dropped when it intersects
/// the exclude list.
pub open spec fn spec_exclude_op(o: Option<OperationV>, exc: Seq<Seq<char>>) -> Option<OperationV> {
    match o {
        Option::Some(op) => if op_has_any_tag(op, exc) {
            Option::None
        } else {
            Option::Some(op)
        },
        Option::None => Option::None,
    }
}

/// A path item after the include pass. References are untouched.
pub open spec fn spec_include_item(p: PathItemV, inc: Seq<Seq<char>>) -> PathItemV {
    match p {
        PathItemV::Ref(t) => PathItemV::Ref(t),
        PathItemV::Item {
            get,
            put,
            post,
            delete,
            options,
            head,
            patch,
            trace,
            parameters,
            extra,
        } => PathItemV::Item {
            get: spec_include_op(get, inc),
            put: spec_include_op(put, inc),
            post: spec_include_op(post, inc),
            delete: spec_include_op(delete, inc),
            options: spec_include_op(options, inc),
            head: spec_include_op(head, inc),
            patch: spec_include_op(patch, inc),
            trace: spec_include_op(trace, inc),
            parameters: parameters,
            extra: extra,
        },
    }
}

/// A path item after the exclude pass. References are untouched.
pub open spec fn spec_exclude_item(p: PathItemV, exc: Seq<Seq<char>>) -> PathItemV {
    match p {
        PathItemV::Ref(t) => PathItemV::Ref(t),
        PathItemV::Item {
            get,
            put,
            post,
            delete,
            options,
            head,
            patch,
            trace,
            parameters,
            extra,
        } => PathItemV::Item {
            get: spec_exclude_op(get, exc),
            put: spec_exclude_op(put, exc),
            post: spec_exclude_op(post, exc),
            delete: spec_exclude_op(delete, exc),
            options: spec_exclude_op(options, exc),
            head: spec_exclude_op(head, exc),
            patch: spec_exclude_op(patch, exc),
            trace: spec_exclude_op(trace, exc),
            parameters: parameters,
            extra: extra,
        },
    }
}

pub open spec fn spec_include_paths(
    ps: Seq<(Seq<char>, PathItemV)>,
    inc: Seq<Seq<char>>,
) -> Seq<(Seq<char>, PathItemV)>
    decreases ps,
{
    if ps.len() == 0 {
        Seq::empty()
    } else {
        spec_include_paths(ps.subrange(0, ps.len() - 1), inc).push(
            (ps[ps.len() - 1].0, spec_include_item(ps[ps.len() - 1].1, inc)),
        )
    }
}

pub open spec fn spec_exclude_paths(
    ps: Seq<(Seq<char>, PathItemV)>,
    exc: Seq<Seq<char>>,
) -> Seq<(Seq<char>, PathItemV)>
    decreases ps,
{
    if ps.len() == 0 {
        Seq::empty()
    } else {
        spec_exclude_paths(ps.subrange(0, ps.len() - 1), exc).push(
            (ps[ps.len() - 1].0, spec_exclude_item(ps[ps.len() - 1].1, exc)),
        )
    }
}

pub broadcast proof fn lemma_spec_include_paths(ps: Seq<(Seq<char>, PathItemV)>, inc: Seq<Seq<char>>)
    ensures
        (#[trigger] spec_include_paths(ps, inc)).len() == ps.len(),
        forall|i: int|
            0 <= i < ps.len() ==> #[trigger] spec_include_paths(ps, inc)[i] == (
                ps[i].0,
                spec_include_item(ps[i].1, inc),
            ),
    decreases ps.len(),
{
    if ps.len() > 0 {
        lemma_spec_include_paths(ps.subrange(0, ps.len() - 1), inc);
        assert forall|i: int|
            0 <= i < ps.len() implies #[trigger] spec_include_paths(ps, inc)[i] == (
            ps[i].0,
            spec_include_item(ps[i].1, inc),
        ) by {
            if i < ps.len() - 1 {
                assert(ps.subrange(0, ps.len() - 1)[i] == ps[i]);
            }
        }
    }
}

pub broadcast proof fn lemma_spec_exclude_paths(ps: Seq<(Seq<char>, PathItemV)>, exc: Seq<Seq<char>>)
    ensures
        (#[trigger] spec_exclude_paths(ps, exc)).len() == ps.len(),
        forall|i: int|
            0 <= i < ps.len() ==> #[trigger] spec_exclude_paths(ps, exc)[i] == (
                ps[i].0,
                spec_exclude_item(ps[i].1, exc),
            ),
    decreases ps.len(),
{
    if ps.len() > 0 {
        lemma_spec_exclude_paths(ps.subrange(0, ps.len() - 1), exc);
        assert forall|i: int|
            0 <= i < ps.len() implies #[trigger] spec_exclude_paths(ps, exc)[i] == (
            ps[i].0,
            spec_exclude_item(ps[i].1, exc),
        ) by {
            if i < ps.len() - 1 {
                assert(ps.subrange(0, ps.len() - 1)[i] == ps[i]);
            }
        }
    }
}

/// A document after the include pass over its paths.
pub open spec fn spec_include_doc(d: DocumentV, inc: Seq<Seq<char>>) -> DocumentV {
    DocumentV { paths: spec_include_paths(d.paths, inc), ..d }
}

/// A document after the exclude pass over its paths.
pub open spec fn spec_exclude_doc(d: DocumentV, exc: Seq<Seq<char>>) -> DocumentV {
    DocumentV { paths: spec_exclude_paths(d.paths, exc), ..d }
}

/// What operation selection does to a document: the include pass when a
/// non-empty include list is given, then the exclude pass when a non-empty
/// exclude list is given.
pub open spec fn spec_run_selection(d: DocumentV, sel: Option<OperationSelectionV>) -> DocumentV {
    match sel {
        Option::None => d,
        Option::Some(s) => {
            let after_include = match s.include_tags {
                Option::Some(inc) => if inc.len() > 0 {
                    spec_include_doc(d, inc)
                } else {
                    d
                },
                Option::None => d,
            };
            match s.exclude_tags {
                Option::Some(exc) => if exc.len() > 0 {
                    spec_exclude_doc(after_include, exc)
                } else {
                    after_include
                },
                Option::None => after_include,
            }
        },
    }
}

/// Whether `s` occurs in `v`.
#[verifier::loop_isolation(false)]
pub fn str_vec_contains(v: &Vec<String>, s: &String) -> (r: bool)
    ensures
        r == tag_in(v.deep_view(), s@),
{
    let mut i: usize = 0;
    while i < v.len()
        invariant
            0 <= i <= v@.len(),
            forall|j: int| 0 <= j < i ==> v.deep_view()[j] != s@,
        decreases v@.len() - i,
    {
        if v[i] == *s {
            assert(v.deep_view()[i as int] == s@);
            return true;
        }
        i = i + 1;
    }
    false
}

/// Whether the operation carries any of `tags`.
#[verifier::loop_isolation(false)]
pub fn operation_contains_any_tag(o: &Operation, tags: &Vec<String>) -> (r: bool)
    ensures
        r == op_has_any_tag(o.deep_view(), tags.deep_view()),
{
    let mut i: usize = 0;
    while i < o.tags.len()
        invariant
            0 <= i <= o.tags@.len(),
            forall|j: int| 0 <= j < i ==> !tag_in(tags.deep_view(), #[trigger] o.deep_view().tags[j]),
        decreases o.tags@.len() - i,
    {
        if str_vec_contains(tags, &o.tags[i]) {
            assert(o.deep_view().tags[i as int] == o.tags@[i as int]@);
            return true;
        }
        i = i + 1;
    }
    false
}

fn include_op(o: Option<Operation>, inc: &Vec<String>) -> (r: Option<Operation>)
    ensures
        crate::model::view_operation_opt(r) == spec_include_op(
            crate::model::view_operation_opt(o),
            inc.deep_view(),
        ),
{
    match o {
        Option::Some(op) => {
            if operation_contains_any_tag(&op, inc) {
                Option::Some(op)
            } else {
                Option::None
            }
        },
        Option::None => Option::None,
    }
}

fn exclude_op(o: Option<Operation>, exc: &Vec<String>) -> (r: Option<Operation>)
    ensures
        crate::model::view_operation_opt(r) == spec_exclude_op(
            crate::model::view_operation_opt(o),
            exc.deep_view(),
        ),
{
    match o {
        Option::Some(op) => {
            if operation_contains_any_tag(&op, exc) {
                Option::None
            } else {
                Option::Some(op)
            }
        },
        Option::None => Option::None,
    }
}

fn include_item(p: PathItem, inc: &Vec<String>) -> (r: PathItem)
    ensures
        r.deep_view() == spec_include_item(p.deep_view(), inc.deep_view()),
{
    match p {
        PathItem::Ref(t) => PathItem::Ref(t),
        PathItem::Item {
            get,
            put,
            post,
            delete,
            options,
            head,
            patch,
            trace,
            parameters,
            extra,
        } => PathItem::Item {
            get: include_op(get, inc),
            put: include_op(put, inc),
            post: include_op(post, inc),
            delete: include_op(delete, inc),
            options: include_op(options, inc),
            head: include_op(head, inc),
            patch: include_op(patch, inc),
            trace: include_op(trace, inc),
            parameters: parameters,
            extra: extra,
        },
    }
}

fn exclude_item(p: PathItem, exc: &Vec<String>) -> (r: PathItem)
    ensures
        r.deep_view() == spec_exclude_item(p.deep_view(), exc.deep_view()),
{
    match p {
        PathItem::Ref(t) => PathItem::Ref(t),
        PathItem::Item {
            get,
            put,
            post,
            delete,
            options,
            head,
            patch,
            trace,
            parameters,
            extra,
        } => PathItem::Item {
            get: exclude_op(get, exc),
            put: exclude_op(put, exc),
            post: exclude_op(post, exc),
            delete: exclude_op(delete, exc),
            options: exclude_op(options, exc),
            head: exclude_op(head, exc),
            patch: exclude_op(patch, exc),
            trace: exclude_op(trace, exc),
            parameters: parameters,
            extra: extra,
        },
    }
}

#[verifier::loop_isolation(false)]
fn include_operations_that_have_tags(oas: Document, inc: &Vec<String>) -> (r: Document)
    ensures
        r.deep_view() == spec_include_doc(oas.deep_view(), inc.deep_view()),
{
    broadcast use lemma_spec_include_paths;

    let Document {
        openapi,
        info,
        servers,
        paths,
        components,
        security,
        tags,
        external_docs,
        extensions,
    } = oas;
    let ghost orig = paths@;
    let ghost full = paths.deep_view();
    let mut rest = paths;
    let mut out: Vec<(String, PathItem)> = Vec::new();
    let mut i: usize = 0;
    proof {
        assert(rest@ =~= orig.subrange(0, orig.len() as int));
        assert(full =~= spec_paths_view(orig));
        assert(full.subrange(0, 0) =~= Seq::<(Seq<char>, PathItemV)>::empty());
        assert(out.deep_view() =~= spec_include_paths(full.subrange(0, 0), inc.deep_view()));
    }
    while rest.len() > 0
        invariant
            0 <= i <= orig.len(),
            rest@ == orig.subrange(i as int, orig.len() as int),
            full == spec_paths_view(orig),
            full.len() == orig.len(),
            out.deep_view() == spec_include_paths(full.subrange(0, i as int), inc.deep_view()),
            out@.len() == i,
        decreases rest@.len(),
    {
        let (k, item) = rest.remove(0);
        proof {
            assert(orig.subrange(i as int, orig.len() as int)[0] == orig[i as int]);
            assert(rest@ =~= orig.subrange(i as int + 1, orig.len() as int));
            assert(full[i as int] == (orig[i as int].0@, orig[i as int].1.deep_view()));
        }
        let ghost pre = out.deep_view();
        let w = include_item(item, inc);
        out.push((k, w));
        proof {
            assert(out.deep_view() =~= pre.push((orig[i as int].0@, w.deep_view())));
            let post = full.subrange(0, i as int + 1);
            assert(post.subrange(0, post.len() - 1) =~= full.subrange(0, i as int));
        }
        i = out.len();
    }
    proof {
        assert(full.subrange(0, full.len() as int) =~= full);
    }
    Document {
        openapi,
        info,
        servers,
        paths: out,
        components,
        security,
        tags,
        external_docs,
        extensions,
    }
}

#[verifier::loop_isolation(false)]
fn drop_operations_that_have_tags(oas: Document, exc: &Vec<String>) -> (r: Document)
    ensures
        r.deep_view() == spec_exclude_doc(oas.deep_view(), exc.deep_view()),
{
    broadcast use lemma_spec_exclude_paths;

    let Document {
        openapi,
        info,
        servers,
        paths,
        components,
        security,
        tags,
        external_docs,
        extensions,
    } = oas;
    let ghost orig = paths@;
    let ghost full = paths.deep_view();
    let mut rest = paths;
    let mut out: Vec<(String, PathItem)> = Vec::new();
    let mut i: usize = 0;
    proof {
        assert(rest@ =~= orig.subrange(0, orig.len() as int));
        assert(full =~= spec_paths_view(orig));
        assert(full.subrange(0, 0) =~= Seq::<(Seq<char>, PathItemV)>::empty());
        assert(out.deep_view() =~= spec_exclude_paths(full.subrange(0, 0), exc.deep_view()));
    }
    while rest.len() > 0
        invariant
            0 <= i <= orig.len(),
            rest@ == orig.subrange(i as int, orig.len() as int),
            full == spec_paths_view(orig),
            full.len() == orig.len(),
            out.deep_view() == spec_exclude_paths(full.subrange(0, i as int), exc.deep_view()),
            out@.len() == i,
        decreases rest@.len(),
    {
        let (k, item) = rest.remove(0);
        proof {
            assert(orig.subrange(i as int, orig.len() as int)[0] == orig[i as int]);
            assert(rest@ =~= orig.subrange(i as int + 1, orig.len() as int));
            assert(full[i as int] == (orig[i as int].0@, orig[i as int].1.deep_view()));
        }
        let ghost pre = out.deep_view();
        let w = exclude_item(item, exc);
        out.push((k, w));
        proof {
            assert(out.deep_view() =~= pre.push((orig[i as int].0@, w.deep_view())));
            let post = full.subrange(0, i as int + 1);
            assert(post.subrange(0, post.len() - 1) =~= full.subrange(0, i as int));
        }
        i = out.len();
    }
    proof {
        assert(full.subrange(0, full.len() as int) =~= full);
    }
    Document {
        openapi,
        info,
        servers,
        paths: out,
        components,
        security,
        tags,
        external_docs,
        extensions,
    }
}

/// The view a paths vector has: spelled out so that loop invariants can
/// name it after the vector has been consumed.
pub open spec fn spec_paths_view(ps: Seq<(String, PathItem)>) -> Seq<(Seq<char>, PathItemV)> {
    Seq::new(ps.len(), |i: int| (ps[i].0@, ps[i].1.deep_view()))
}

/// Filter a document's operations by the selection, following
/// [`spec_run_selection`].
pub fn run_operation_selection(oas: Document, selection: Option<&OperationSelection>) -> (r:
    Document)
    ensures
        r.deep_view() == spec_run_selection(oas.deep_view(), selection.deep_view()),
{
    let sel = match selection {
        Option::Some(s) => s,
        Option::None => {
            return oas;
        },
    };
    let mut oas = oas;
    match &sel.include_tags {
        Option::Some(inc) => {
            if inc.len() > 0 {
                oas = include_operations_that_have_tags(oas, inc);
            }
        },
        Option::None => {},
    }
    match &sel.exclude_tags {
        Option::Some(exc) => {
            if exc.len() > 0 {
                oas = drop_operations_that_have_tags(oas, exc);
            }
        },
        Option::None => {},
    }
    oas
}

/// The operation slot named by `k`, for stating facts about all eight
/// slots at once.
pub open spec fn slot(p: PathItemV, k: int) -> Option<OperationV> {
    match p {
        PathItemV::Ref(_) => Option::None,
        PathItemV::Item { get, put, post, delete, options, head, patch, trace, .. } => {
            if k == 0 {
                get
            } else if k == 1 {
                put
            } else if k == 2 {
                post
            } else if k == 3 {
                delete
            } else if k == 4 {
                options
            } else if k == 5 {
                head
            } else if k == 6 {
                patch
            } else if k == 7 {
                trace
            } else {
                Option::None
            }
        },
    }
}

/// Exclusion wins: an operation that carries a tag standing in both the
/// include and the exclude list is absent from every slot after selection.
pub proof fn lemma_exclude_precedence(
    d: DocumentV,
    sel: OperationSelectionV,
    t: Seq<char>,
    i: int,
    k: int,
)
    requires
        0 <= i < d.paths.len(),
        0 <= k < 8,
        sel.include_tags is Some,
        sel.exclude_tags is Some,
        tag_in(sel.include_tags.unwrap(), t),
        tag_in(sel.exclude_tags.unwrap(), t),
        match slot(d.paths[i].1, k) {
            Option::Some(op) => tag_in(op.tags, t),
            Option::None => true,
        },
    ensures
        slot(spec_run_selection(d, Option::Some(sel)).paths[i].1, k) is None,
{
    broadcast use lemma_spec_include_paths, lemma_spec_exclude_paths;

    let inc = sel.include_tags.unwrap();
    let exc = sel.exclude_tags.unwrap();
    let d1 = spec_include_doc(d, inc);
    let out = spec_run_selection(d, Option::Some(sel));
    assert(d1.paths[i] == (d.paths[i].0, spec_include_item(d.paths[i].1, inc)));
    assert(out.paths[i] == (d1.paths[i].0, spec_exclude_item(d1.paths[i].1, exc)));
    match slot(d.paths[i].1, k) {
        Option::Some(op) => {
            assert(op_has_any_tag(op, exc)) by {
                let j = choose|j: int| 0 <= j < op.tags.len() && op.tags[j] == t;
                assert(tag_in(exc, op.tags[j]));
            }
        },
        Option::None => {},
    }
}

} // verus!
