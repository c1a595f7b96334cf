//! Merging paths and components across all inputs.
//!
//! Per input, in order: operation selection runs, empty path items are
//! dropped, each component kind is folded into the accumulator (collisions
//! resolved by dispute rename or numeric suffix, every rename recorded in
//! a rewrite table scoped to this input), paths are folded in (duplicates
//! rejected, operation ids made globally unique), and finally the rewrite
//! table is applied to everything this input placed, so that the
//! accumulator's references point at their final names.

use vstd::prelude::*;
use vstd::string::StrSliceExecFns;
use vstd::string::StringExecFns;
use crate::data::Dispute;
use crate::data::DisputeV;
use crate::data::ErrorMergeResult;
use crate::data::ErrorType;
use crate::data::MergeInput;
use crate::data::PathModification;
use crate::data::PathModificationV;
use crate::data::SingleMergeInput;
use crate::data::SingleMergeInputV;
use crate::json::Json;
use crate::json::JsonV;
use crate::model::Component;
use crate::model::ComponentV;
use crate::model::Components;
use crate::model::ComponentsV;
use crate::model::Document;
use crate::model::DocumentV;
use crate::model::Operation;
use crate::model::OperationV;
use crate::model::PathItem;
use crate::model::PathItemV;
use crate::canonical::components_equal;
use crate::canonical::spec_components_equal;
use crate::merge::dispute::DisputeStatus;
use crate::merge::dispute::apply_dispute;
use crate::merge::dispute::get_dispute;
use crate::merge::dispute::spec_apply_dispute;
use crate::merge::dispute::spec_get_dispute;
use crate::merge::operation_selection::run_operation_selection;
use crate::merge::operation_selection::spec_run_selection;
use crate::merge::reference_walker::RewriteTable;
use crate::merge::reference_walker::spec_table_set;
use crate::merge::reference_walker::spec_walk_component_map;
use crate::merge::reference_walker::spec_walk_path_item_map;
use crate::merge::reference_walker::spec_walk_document;
use crate::merge::reference_walker::walk_component_map;
use crate::merge::reference_walker::walk_path_item_map;
use crate::merge::reference_walker::walk_all_references;
use crate::merge::reference_walker::lemma_walk_document_empty;
use crate::text::spec_dec;
use crate::text::str_concat;
use crate::text::str_drop_chars;
use crate::text::str_starts_with;
use crate::text::u64_to_dec;

verus! {

// ------------------------------------------------------------------
// Association lists keyed by strings.
// ------------------------------------------------------------------

/// The value at the first entry under `key`, if any.
pub open spec fn assoc_get<V>(m: Seq<(Seq<char>, V)>, key: Seq<char>) -> Option<V>
    decreases m.len(),
{
    if m.len() == 0 {
        Option::None
    } else if m[0].0 == key {
        Option::Some(m[0].1)
    } else {
        assoc_get(m.subrange(1, m.len() as int), key)
    }
}

/// `m` with `key` bound to `value`: the first entry under `key` is
/// replaced in place, or a new entry is appended.
pub open spec fn assoc_set<V>(m: Seq<(Seq<char>, V)>, key: Seq<char>, value: V) -> Seq<
    (Seq<char>, V),
>
    decreases m.len(),
{
    if m.len() == 0 {
        seq![(key, value)]
    } else if m[0].0 == key {
        seq![(key, value)] + m.subrange(1, m.len() as int)
    } else {
        seq![m[0]] + assoc_set(m.subrange(1, m.len() as int), key, value)
    }
}

pub proof fn lemma_assoc_set_found<V>(m: Seq<(Seq<char>, V)>, key: Seq<char>, value: V, i: int)
    requires
        0 <= i < m.len(),
        m[i].0 == key,
        forall|j: int| 0 <= j < i ==> (#[trigger] m[j]).0 != key,
    ensures
        assoc_set(m, key, value) =~= m.update(i, (key, value)),
    decreases i,
{
    if i == 0 {
    } else {
        let tail = m.subrange(1, m.len() as int);
        assert(tail[i - 1] == m[i]);
        assert forall|j: int| 0 <= j < i - 1 implies (#[trigger] tail[j]).0 != key by {
            assert(tail[j] == m[j + 1]);
        }
        lemma_assoc_set_found(tail, key, value, i - 1);
        assert(assoc_set(m, key, value) =~= m.update(i, (key, value)));
    }
}

pub proof fn lemma_assoc_set_missing<V>(m: Seq<(Seq<char>, V)>, key: Seq<char>, value: V)
    requires
        forall|j: int| 0 <= j < m.len() ==> (#[trigger] m[j]).0 != key,
    ensures
        assoc_set(m, key, value) =~= m.push((key, value)),
    decreases m.len(),
{
    if m.len() > 0 {
        let tail = m.subrange(1, m.len() as int);
        assert forall|j: int| 0 <= j < tail.len() implies (#[trigger] tail[j]).0 != key by {
            assert(tail[j] == m[j + 1]);
        }
        lemma_assoc_set_missing(tail, key, value);
        assert(assoc_set(m, key, value) =~= m.push((key, value)));
    }
}

/// The first component entry under `key`, if any.
#[verifier::loop_isolation(false)]
pub fn component_map_get<'a>(m: &'a Vec<(String, Component)>, key: &String) -> (r: Option<
    &'a Component,
>)
    ensures
        match r {
            Option::Some(v) => assoc_get(m.deep_view(), key@) == Option::Some(v.deep_view()),
            Option::None => assoc_get(m.deep_view(), key@) is None,
        },
{
    let ghost all = m.deep_view();
    proof {
        assert(all.subrange(0, all.len() as int) =~= all);
    }
    let mut i: usize = 0;
    while i < m.len()
        invariant
            0 <= i <= m@.len(),
            all.len() == m@.len(),
            assoc_get(all, key@) == assoc_get(all.subrange(i as int, all.len() as int), key@),
        decreases m@.len() - i,
    {
        proof {
            let tail = all.subrange(i as int, all.len() as int);
            assert(tail[0] == all[i as int]);
            assert(tail.subrange(1, tail.len() as int) =~= all.subrange(
                i as int + 1,
                all.len() as int,
            ));
        }
        if m[i].0 == *key {
            return Option::Some(&m[i].1);
        }
        i = i + 1;
    }
    proof {
        assert(all.subrange(all.len() as int, all.len() as int) =~= Seq::<(
            Seq<char>,
            ComponentV,
        )>::empty());
    }
    Option::None
}

/// The first path entry under `key`, if any.
#[verifier::loop_isolation(false)]
pub fn path_map_has(m: &Vec<(String, PathItem)>, key: &String) -> (r: bool)
    ensures
        r == (assoc_get(m.deep_view(), key@) is Some),
{
    let ghost all = m.deep_view();
    proof {
        assert(all.subrange(0, all.len() as int) =~= all);
    }
    let mut i: usize = 0;
    while i < m.len()
        invariant
            0 <= i <= m@.len(),
            all.len() == m@.len(),
            assoc_get(all, key@) == assoc_get(all.subrange(i as int, all.len() as int), key@),
        decreases m@.len() - i,
    {
        proof {
            let tail = all.subrange(i as int, all.len() as int);
            assert(tail[0] == all[i as int]);
            assert(tail.subrange(1, tail.len() as int) =~= all.subrange(
                i as int + 1,
                all.len() as int,
            ));
        }
        if m[i].0 == *key {
            return true;
        }
        i = i + 1;
    }
    proof {
        assert(all.subrange(all.len() as int, all.len() as int) =~= Seq::<(
            Seq<char>,
            PathItemV,
        )>::empty());
    }
    false
}

// ------------------------------------------------------------------
// Path modification.
// ------------------------------------------------------------------

/// What path modification does to a path string: the `strip_start`
/// fragment is removed from the front when the path begins with it, then
/// the `prepend` fragment is attached to the front.
pub open spec fn spec_modify_path(p: Seq<char>, pm: Option<PathModificationV>) -> Seq<char> {
    match pm {
        Option::None => p,
        Option::Some(m) => {
            let stripped = match m.strip_start {
                Option::Some(s) => if s.is_prefix_of(p) {
                    p.subrange(s.len() as int, p.len() as int)
                } else {
                    p
                },
                Option::None => p,
            };
            match m.prepend {
                Option::Some(pre) => pre + stripped,
                Option::None => stripped,
            }
        },
    }
}

/// Rewrite one path string, following [`spec_modify_path`].
pub fn apply_path_modification(path: &String, pm: Option<&PathModification>) -> (r: String)
    ensures
        r@ == spec_modify_path(path@, pm.deep_view()),
{
    let m = match pm {
        Option::Some(m) => m,
        Option::None => {
            return path.clone();
        },
    };
    let mut result = path.clone();
    match &m.strip_start {
        Option::Some(s) => {
            if str_starts_with(result.as_str(), s.as_str()) {
                result = str_drop_chars(result.as_str(), s.as_str().unicode_len());
            }
        },
        Option::None => {},
    }
    match &m.prepend {
        Option::Some(pre) => {
            result = str_concat(pre.as_str(), result.as_str());
        },
        Option::None => {},
    }
    result
}

// ------------------------------------------------------------------
// Dropping path items with no operations.
// ------------------------------------------------------------------

/// Whether the path item keeps a place in the merge: a reference is kept,
/// an inline item only when some operation slot is filled.
pub open spec fn item_has_operations(p: PathItemV) -> bool {
    match p {
        PathItemV::Ref(_) => true,
        PathItemV::Item { get, put, post, delete, options, head, patch, trace, .. } => get is Some
            || put is Some || post is Some || delete is Some || options is Some || head is Some
            || patch is Some || trace is Some,
    }
}

pub open spec fn spec_drop_empty_paths(ps: Seq<(Seq<char>, PathItemV)>) -> Seq<
    (Seq<char>, PathItemV),
>
    decreases ps,
{
    if ps.len() == 0 {
        Seq::empty()
    } else {
        let rest = spec_drop_empty_paths(ps.subrange(0, ps.len() - 1));
        if item_has_operations(ps[ps.len() - 1].1) {
            rest.push(ps[ps.len() - 1])
        } else {
            rest
        }
    }
}

/// A document without its operation-less path items.
pub open spec fn spec_drop_empty_doc(d: DocumentV) -> DocumentV {
    DocumentV { paths: spec_drop_empty_paths(d.paths), ..d }
}

fn path_item_has_operations(p: &PathItem) -> (r: bool)
    ensures
        r == item_has_operations(p.deep_view()),
{
    match p {
        PathItem::Ref(_) => true,
        PathItem::Item { get, put, post, delete, options, head, patch, trace, .. } => get.is_some()
            || put.is_some() || post.is_some() || delete.is_some() || options.is_some()
            || head.is_some() || patch.is_some() || trace.is_some(),
    }
}

/// Remove path items whose operation slots are all empty; references are
/// kept.
#[verifier::loop_isolation(false)]
pub fn drop_path_items_with_no_operations(oas: Document) -> (r: Document)
    ensures
        r.deep_view() == spec_drop_empty_doc(oas.deep_view()),
{
    let Document {
        openapi,
        info,
        servers,
        paths,
        components,
        security,
        tags,
        external_docs,
        extensions,
    } = oas;
    let ghost orig = paths@;
    let ghost full = paths.deep_view();
    let n = paths.len();
    let mut rest = paths;
    let mut out: Vec<(String, PathItem)> = Vec::new();
    let mut i: usize = 0;
    proof {
        assert(rest@ =~= orig.subrange(0, orig.len() as int));
        assert(full =~= crate::merge::operation_selection::spec_paths_view(orig));
        assert(full.subrange(0, 0) =~= Seq::<(Seq<char>, PathItemV)>::empty());
        assert(out.deep_view() =~= spec_drop_empty_paths(full.subrange(0, 0)));
    }
    while rest.len() > 0
        invariant
            0 <= i <= n,
            n == orig.len(),
            rest@ == orig.subrange(i as int, orig.len() as int),
            full == crate::merge::operation_selection::spec_paths_view(orig),
            full.len() == orig.len(),
            out.deep_view() == spec_drop_empty_paths(full.subrange(0, i as int)),
        decreases rest@.len(),
    {
        let (k, item) = rest.remove(0);
        proof {
            assert(orig.subrange(i as int, orig.len() as int)[0] == orig[i as int]);
            assert(rest@ =~= orig.subrange(i as int + 1, orig.len() as int));
            assert(full[i as int] == (orig[i as int].0@, orig[i as int].1.deep_view()));
        }
        let ghost pre = out.deep_view();
        let keep = path_item_has_operations(&item);
        if keep {
            out.push((k, item));
        }
        proof {
            let post = full.subrange(0, i as int + 1);
            assert(post.subrange(0, post.len() - 1) =~= full.subrange(0, i as int));
            if keep {
                assert(out.deep_view() =~= pre.push(full[i as int]));
            }
        }
        i = i + 1;
    }
    proof {
        assert(full.subrange(0, full.len() as int) =~= full);
    }
    Document {
        openapi,
        info,
        servers,
        paths: out,
        components,
        security,
        tags,
        external_docs,
        extensions,
    }
}

// ------------------------------------------------------------------
// Component merging, one kind at a time.
// ------------------------------------------------------------------

/// The reference string of a named component of a kind.
pub open spec fn comp_ref(kind: Seq<char>, name: Seq<char>) -> Seq<char> {
    "#/components/"@ + kind + "/"@ + name
}

/// The reference string of a path.
pub open spec fn path_ref(p: Seq<char>) -> Seq<char> {
    "#/paths/"@ + p
}

/// A lookup across the accumulator and this input's placements; the
/// placements shadow the accumulator.
pub open spec fn lookup2(
    old: Seq<(Seq<char>, ComponentV)>,
    delta: Seq<(Seq<char>, ComponentV)>,
    key: Seq<char>,
) -> Option<ComponentV> {
    match assoc_get(delta, key) {
        Option::Some(v) => Option::Some(v),
        Option::None => assoc_get(old, key),
    }
}

/// The first free numbered name `name1`, `name2`, ... `name999`, if any.
pub open spec fn spec_find_candidate(
    old: Seq<(Seq<char>, ComponentV)>,
    delta: Seq<(Seq<char>, ComponentV)>,
    name: Seq<char>,
    n: int,
) -> Option<Seq<char>>
    decreases 1000 - n,
{
    if n < 1 || n >= 1000 {
        Option::None
    } else {
        let candidate = name + spec_dec(n);
        if lookup2(old, delta, candidate) is None {
            Option::Some(candidate)
        } else {
            spec_find_candidate(old, delta, name, n + 1)
        }
    }
}

/// One component entry folded into this input's placements, per the merge
/// rules: place at the (possibly always-renamed) name when free or equal;
/// otherwise rename by dispute when that slot is free or equal; otherwise
/// take the first free numbered name; otherwise fail. Every rename is
/// recorded in the rewrite table.
pub open spec fn spec_merge_component_one(
    old: Seq<(Seq<char>, ComponentV)>,
    delta: Seq<(Seq<char>, ComponentV)>,
    table: Seq<(Seq<char>, Seq<char>)>,
    kind: Seq<char>,
    dispute: Option<DisputeV>,
    name: Seq<char>,
    value: ComponentV,
) -> Result<(Seq<(Seq<char>, ComponentV)>, Seq<(Seq<char>, Seq<char>)>), ErrorType> {
    let modified = spec_apply_dispute(dispute, name, DisputeStatus::Undisputed);
    let table1 = if modified != name {
        spec_table_set(table, comp_ref(kind, name), comp_ref(kind, modified))
    } else {
        table
    };
    let placeable = match lookup2(old, delta, modified) {
        Option::None => true,
        Option::Some(existing) => spec_components_equal(existing, value),
    };
    if placeable {
        Result::Ok((assoc_set(delta, modified, value), table1))
    } else {
        let preferred = spec_apply_dispute(dispute, name, DisputeStatus::Disputed);
        let preferred_ok = dispute is Some && match lookup2(old, delta, preferred) {
            Option::None => true,
            Option::Some(existing) => spec_components_equal(existing, value),
        };
        if preferred_ok {
            Result::Ok(
                (
                    assoc_set(delta, preferred, value),
                    spec_table_set(table1, comp_ref(kind, name), comp_ref(kind, preferred)),
                ),
            )
        } else {
            match spec_find_candidate(old, delta, name, 1) {
                Option::Some(candidate) => Result::Ok(
                    (
                        assoc_set(delta, candidate, value),
                        spec_table_set(table1, comp_ref(kind, name), comp_ref(kind, candidate)),
                    ),
                ),
                Option::None => Result::Err(ErrorType::ComponentDefinitionConflict),
            }
        }
    }
}

/// A whole kind's map folded into this input's placements, in insertion
/// order.
pub open spec fn spec_merge_component_map(
    old: Seq<(Seq<char>, ComponentV)>,
    delta: Seq<(Seq<char>, ComponentV)>,
    table: Seq<(Seq<char>, Seq<char>)>,
    kind: Seq<char>,
    dispute: Option<DisputeV>,
    entries: Seq<(Seq<char>, ComponentV)>,
) -> Result<(Seq<(Seq<char>, ComponentV)>, Seq<(Seq<char>, Seq<char>)>), ErrorType>
    decreases entries.len(),
{
    if entries.len() == 0 {
        Result::Ok((delta, table))
    } else {
        match spec_merge_component_one(old, delta, table, kind, dispute, entries[0].0, entries[0].1) {
            Result::Err(e) => Result::Err(e),
            Result::Ok((delta2, table2)) => spec_merge_component_map(
                old,
                delta2,
                table2,
                kind,
                dispute,
                entries.subrange(1, entries.len() as int),
            ),
        }
    }
}

/// Bind `key` to `value` in a component map, following [`assoc_set`].
#[verifier::loop_isolation(false)]
pub fn component_map_set(m: &mut Vec<(String, Component)>, key: String, value: Component)
    ensures
        final(m).deep_view() == assoc_set(old(m).deep_view(), key@, value.deep_view()),
{
    let n = m.len();
    let mut i: usize = 0;
    while i < n
        invariant
            0 <= i <= n,
            n == m@.len(),
            *m == *old(m),
            forall|j: int| 0 <= j < i ==> (#[trigger] m.deep_view()[j]).0 != key@,
        decreases n - i,
    {
        if m[i].0 == key {
            proof {
                lemma_assoc_set_found(m.deep_view(), key@, value.deep_view(), i as int);
            }
            m.set(i, (key, value));
            proof {
                assert(m.deep_view() =~= assoc_set(old(m).deep_view(), key@, value.deep_view()));
            }
            return ;
        }
        proof {
            assert(m.deep_view()[i as int] == (m@[i as int].0@, m@[i as int].1.deep_view()));
        }
        i = i + 1;
    }
    proof {
        lemma_assoc_set_missing(m.deep_view(), key@, value.deep_view());
    }
    m.push((key, value));
    proof {
        assert(m.deep_view() =~= assoc_set(old(m).deep_view(), key@, value.deep_view()));
    }
}

/// The reference string of a named component, built.
pub fn comp_ref_string(kind: &str, name: &str) -> (r: String)
    ensures
        r@ == comp_ref(kind@, name@),
{
    let a = str_concat("#/components/", kind);
    let b = str_concat(a.as_str(), "/");
    let r = str_concat(b.as_str(), name);
    proof {
        assert(r@ =~= comp_ref(kind@, name@));
    }
    r
}

/// The reference string of a path, built.
pub fn path_ref_string(p: &str) -> (r: String)
    ensures
        r@ == path_ref(p@),
{
    str_concat("#/paths/", p)
}

// ------------------------------------------------------------------
// Unique operation ids.
// ------------------------------------------------------------------

/// The first free numbered id `id1`, `id2`, ... `id999`, if any.
pub open spec fn spec_find_free_id(op_id: Seq<char>, seen: Seq<Seq<char>>, n: int) -> Option<
    Seq<char>,
>
    decreases 1000 - n,
{
    if n < 1 || n >= 1000 {
        Option::None
    } else {
        let candidate = op_id + spec_dec(n);
        if !crate::merge::operation_selection::tag_in(seen, candidate) {
            Option::Some(candidate)
        } else {
            spec_find_free_id(op_id, seen, n + 1)
        }
    }
}

/// The id an operation ends up with: its own when unseen; else the
/// dispute-renamed id when that is unseen; else the first free numbered
/// id; else the merge fails.
pub open spec fn spec_find_unique_operation_id(
    op_id: Seq<char>,
    seen: Seq<Seq<char>>,
    dispute: Option<DisputeV>,
) -> Result<Seq<char>, ErrorType> {
    if !crate::merge::operation_selection::tag_in(seen, op_id) {
        Result::Ok(op_id)
    } else {
        let renamed = spec_apply_dispute(dispute, op_id, DisputeStatus::Disputed);
        if dispute is Some && !crate::merge::operation_selection::tag_in(seen, renamed) {
            Result::Ok(renamed)
        } else {
            match spec_find_free_id(op_id, seen, 1) {
                Option::Some(c) => Result::Ok(c),
                Option::None => Result::Err(ErrorType::OperationIdConflict),
            }
        }
    }
}

/// Find a globally fresh id for one operation id, following
/// [`spec_find_unique_operation_id`].
#[verifier::loop_isolation(false)]
pub fn find_unique_operation_id(
    operation_id: &String,
    seen: &Vec<String>,
    dispute: Option<&Dispute>,
) -> (r: Result<String, ErrorMergeResult>)
    ensures
        match r {
            Result::Ok(id) => spec_find_unique_operation_id(
                operation_id@,
                seen.deep_view(),
                dispute.deep_view(),
            ) == Result::Ok::<Seq<char>, ErrorType>(id@),
            Result::Err(e) => spec_find_unique_operation_id(
                operation_id@,
                seen.deep_view(),
                dispute.deep_view(),
            ) == Result::Err::<Seq<char>, ErrorType>(e.error_type) && e.error_type
                == ErrorType::OperationIdConflict,
        },
{
    if !crate::merge::operation_selection::str_vec_contains(seen, operation_id) {
        return Result::Ok(operation_id.clone());
    }
    match dispute {
        Option::Some(d) => {
            let renamed = apply_dispute(Option::Some(d), operation_id.as_str(), DisputeStatus::Disputed);
            if !crate::merge::operation_selection::str_vec_contains(seen, &renamed) {
                return Result::Ok(renamed);
            }
        },
        Option::None => {},
    }
    let mut n: u64 = 1;
    while n < 1000
        invariant
            1 <= n <= 1000,
            spec_find_free_id(operation_id@, seen.deep_view(), 1) == spec_find_free_id(
                operation_id@,
                seen.deep_view(),
                n as int,
            ),
        decreases 1000 - n,
    {
        let num = u64_to_dec(n);
        let candidate = str_concat(operation_id.as_str(), num.as_str());
        if !crate::merge::operation_selection::str_vec_contains(seen, &candidate) {
            return Result::Ok(candidate);
        }
        n = n + 1;
    }
    let mut message = String::new();
    message.append("Could not resolve a conflict for the operationId '");
    message.append(operation_id.as_str());
    message.append("'");
    Result::Err(ErrorMergeResult { error_type: ErrorType::OperationIdConflict, message })
}

/// One operation slot with its id made globally fresh; the fresh id joins
/// the seen set.
pub open spec fn spec_uniquify_slot(
    o: Option<OperationV>,
    seen: Seq<Seq<char>>,
    dispute: Option<DisputeV>,
) -> Result<(Option<OperationV>, Seq<Seq<char>>), ErrorType> {
    match o {
        Option::None => Result::Ok((Option::None, seen)),
        Option::Some(op) => match op.operation_id {
            Option::None => Result::Ok((Option::Some(op), seen)),
            Option::Some(id) => match spec_find_unique_operation_id(id, seen, dispute) {
                Result::Err(e) => Result::Err(e),
                Result::Ok(new_id) => Result::Ok(
                    (
                        Option::Some(OperationV { operation_id: Option::Some(new_id), ..op }),
                        seen.push(new_id),
                    ),
                ),
            },
        },
    }
}

fn uniquify_slot(
    o: Option<Operation>,
    seen: &mut Vec<String>,
    dispute: Option<&Dispute>,
) -> (r: Result<Option<Operation>, ErrorMergeResult>)
    ensures
        match r {
            Result::Ok(o2) => spec_uniquify_slot(
                crate::model::view_operation_opt(o),
                old(seen).deep_view(),
                dispute.deep_view(),
            ) == Result::Ok::<_, ErrorType>(
                (crate::model::view_operation_opt(o2), final(seen).deep_view()),
            ),
            Result::Err(e) => spec_uniquify_slot(
                crate::model::view_operation_opt(o),
                old(seen).deep_view(),
                dispute.deep_view(),
            ) == Result::Err::<(Option<OperationV>, Seq<Seq<char>>), ErrorType>(e.error_type),
        },
{
    match o {
        Option::None => Result::Ok(Option::None),
        Option::Some(op) => {
            match &op.operation_id {
                Option::None => Result::Ok(Option::Some(op)),
                Option::Some(id) => {
                    match find_unique_operation_id(id, seen, dispute) {
                        Result::Err(e) => Result::Err(e),
                        Result::Ok(new_id) => {
                            let ghost pre_seen = seen.deep_view();
                            seen.push(new_id.clone());
                            proof {
                                assert(seen.deep_view() =~= pre_seen.push(new_id@));
                            }
                            let Operation {
                                operation_id: _,
                                tags,
                                parameters,
                                request_body,
                                responses,
                                extra,
                            } = op;
                            Result::Ok(
                                Option::Some(
                                    Operation {
                                        operation_id: Option::Some(new_id),
                                        tags,
                                        parameters,
                                        request_body,
                                        responses,
                                        extra,
                                    },
                                ),
                            )
                        },
                    }
                },
            }
        },
    }
}

/// A path item with every operation id made globally fresh, slots visited
/// in a fixed order.
pub open spec fn spec_ensure_unique_ids(
    item: PathItemV,
    seen: Seq<Seq<char>>,
    dispute: Option<DisputeV>,
) -> Result<(PathItemV, Seq<Seq<char>>), ErrorType> {
    match item {
        PathItemV::Ref(_) => Result::Ok((item, seen)),
        PathItemV::Item {
            get,
            put,
            post,
            delete,
            options,
            head,
            patch,
            trace,
            parameters,
            extra,
        } => match spec_uniquify_slot(get, seen, dispute) {
            Result::Err(e) => Result::Err(e),
            Result::Ok((get2, s1)) => match spec_uniquify_slot(put, s1, dispute) {
                Result::Err(e) => Result::Err(e),
                Result::Ok((put2, s2)) => match spec_uniquify_slot(post, s2, dispute) {
                    Result::Err(e) => Result::Err(e),
                    Result::Ok((post2, s3)) => match spec_uniquify_slot(delete, s3, dispute) {
                        Result::Err(e) => Result::Err(e),
                        Result::Ok((delete2, s4)) => match spec_uniquify_slot(patch, s4, dispute) {
                            Result::Err(e) => Result::Err(e),
                            Result::Ok((patch2, s5)) => match spec_uniquify_slot(
                                head,
                                s5,
                                dispute,
                            ) {
                                Result::Err(e) => Result::Err(e),
                                Result::Ok((head2, s6)) => match spec_uniquify_slot(
                                    trace,
                                    s6,
                                    dispute,
                                ) {
                                    Result::Err(e) => Result::Err(e),
                                    Result::Ok((trace2, s7)) => match spec_uniquify_slot(
                                        options,
                                        s7,
                                        dispute,
                                    ) {
                                        Result::Err(e) => Result::Err(e),
                                        Result::Ok((options2, s8)) => Result::Ok(
                                            (
                                                PathItemV::Item {
                                                    get: get2,
                                                    put: put2,
                                                    post: post2,
                                                    delete: delete2,
                                                    options: options2,
                                                    head: head2,
                                                    patch: patch2,
                                                    trace: trace2,
                                                    parameters: parameters,
                                                    extra: extra,
                                                },
                                                s8,
                                            ),
                                        ),
                                    },
                                },
                            },
                        },
                    },
                },
            },
        },
    }
}

/// Make every operation id of the path item globally fresh, following
/// [`spec_ensure_unique_ids`].
pub fn ensure_unique_operation_ids(
    item: PathItem,
    seen: &mut Vec<String>,
    dispute: Option<&Dispute>,
) -> (r: Result<PathItem, ErrorMergeResult>)
    ensures
        match r {
            Result::Ok(item2) => spec_ensure_unique_ids(
                item.deep_view(),
                old(seen).deep_view(),
                dispute.deep_view(),
            ) == Result::Ok::<_, ErrorType>((item2.deep_view(), final(seen).deep_view())),
            Result::Err(e) => spec_ensure_unique_ids(
                item.deep_view(),
                old(seen).deep_view(),
                dispute.deep_view(),
            ) == Result::Err::<(PathItemV, Seq<Seq<char>>), ErrorType>(e.error_type),
        },
{
    match item {
        PathItem::Ref(t) => Result::Ok(PathItem::Ref(t)),
        PathItem::Item {
            get,
            put,
            post,
            delete,
            options,
            head,
            patch,
            trace,
            parameters,
            extra,
        } => {
            let get2 = match uniquify_slot(get, seen, dispute) {
                Result::Ok(o) => o,
                Result::Err(e) => {
                    return Result::Err(e);
                },
            };
            let put2 = match uniquify_slot(put, seen, dispute) {
                Result::Ok(o) => o,
                Result::Err(e) => {
                    return Result::Err(e);
                },
            };
            let post2 = match uniquify_slot(post, seen, dispute) {
                Result::Ok(o) => o,
                Result::Err(e) => {
                    return Result::Err(e);
                },
            };
            let delete2 = match uniquify_slot(delete, seen, dispute) {
                Result::Ok(o) => o,
                Result::Err(e) => {
                    return Result::Err(e);
                },
            };
            let patch2 = match uniquify_slot(patch, seen, dispute) {
                Result::Ok(o) => o,
                Result::Err(e) => {
                    return Result::Err(e);
                },
            };
            let head2 = match uniquify_slot(head, seen, dispute) {
                Result::Ok(o) => o,
                Result::Err(e) => {
                    return Result::Err(e);
                },
            };
            let trace2 = match uniquify_slot(trace, seen, dispute) {
                Result::Ok(o) => o,
                Result::Err(e) => {
                    return Result::Err(e);
                },
            };
            let options2 = match uniquify_slot(options, seen, dispute) {
                Result::Ok(o) => o,
                Result::Err(e) => {
                    return Result::Err(e);
                },
            };
            Result::Ok(
                PathItem::Item {
                    get: get2,
                    put: put2,
                    post: post2,
                    delete: delete2,
                    options: options2,
                    head: head2,
                    patch: patch2,
                    trace: trace2,
                    parameters,
                    extra,
                },
            )
        },
    }
}

// ------------------------------------------------------------------
// Executable component merging.
// ------------------------------------------------------------------

fn lookup_old_and_delta<'a>(
    acc: &'a Vec<(String, Component)>,
    delta: &'a Vec<(String, Component)>,
    key: &String,
) -> (r: Option<&'a Component>)
    ensures
        match r {
            Option::Some(v) => lookup2(acc.deep_view(), delta.deep_view(), key@) == Option::Some(
                v.deep_view(),
            ),
            Option::None => lookup2(acc.deep_view(), delta.deep_view(), key@) is None,
        },
{
    match component_map_get(delta, key) {
        Option::Some(v) => Option::Some(v),
        Option::None => component_map_get(acc, key),
    }
}

#[verifier::loop_isolation(false)]
fn find_free_candidate(
    acc: &Vec<(String, Component)>,
    delta: &Vec<(String, Component)>,
    name: &String,
) -> (r: Option<String>)
    ensures
        match r {
            Option::Some(c) => spec_find_candidate(acc.deep_view(), delta.deep_view(), name@, 1)
                == Option::Some(c@),
            Option::None => spec_find_candidate(acc.deep_view(), delta.deep_view(), name@, 1)
                is None,
        },
{
    let mut n: u64 = 1;
    while n < 1000
        invariant
            1 <= n <= 1000,
            spec_find_candidate(acc.deep_view(), delta.deep_view(), name@, 1)
                == spec_find_candidate(acc.deep_view(), delta.deep_view(), name@, n as int),
        decreases 1000 - n,
    {
        let num = u64_to_dec(n);
        let candidate = str_concat(name.as_str(), num.as_str());
        match lookup_old_and_delta(acc, delta, &candidate) {
            Option::None => {
                return Option::Some(candidate);
            },
            Option::Some(_) => {},
        }
        n = n + 1;
    }
    Option::None
}

/// The view a component entries vector has: spelled out so that loop
/// invariants can name it after the vector has been consumed.
pub open spec fn spec_comp_entries_view(es: Seq<(String, Component)>) -> Seq<
    (Seq<char>, ComponentV),
> {
    Seq::new(es.len(), |i: int| (es[i].0@, es[i].1.deep_view()))
}

/// Fold one kind's map from an input into this input's placements,
/// following [`spec_merge_component_map`]. `old` is the accumulator as it
/// stood before this input; the returned vector holds what this input
/// placed, with placements shadowing `old`.
#[verifier::loop_isolation(false)]
pub fn process_components_with_prefix(
    acc: &Vec<(String, Component)>,
    entries: Vec<(String, Component)>,
    dispute: Option<&Dispute>,
    table: &mut RewriteTable,
    prefix: &str,
) -> (r: Result<Vec<(String, Component)>, ErrorMergeResult>)
    ensures
        match r {
            Result::Ok(delta) => spec_merge_component_map(
                acc.deep_view(),
                Seq::empty(),
                old(table)@,
                prefix@,
                dispute.deep_view(),
                entries.deep_view(),
            ) == Result::Ok::<_, ErrorType>((delta.deep_view(), final(table)@)),
            Result::Err(e) => spec_merge_component_map(
                acc.deep_view(),
                Seq::empty(),
                old(table)@,
                prefix@,
                dispute.deep_view(),
                entries.deep_view(),
            ) == Result::Err::<
                (Seq<(Seq<char>, ComponentV)>, Seq<(Seq<char>, Seq<char>)>),
                ErrorType,
            >(e.error_type) && e.error_type == ErrorType::ComponentDefinitionConflict,
        },
{
    let ghost oldv = acc.deep_view();
    let ghost dv = dispute.deep_view();
    let ghost entries0 = entries.deep_view();
    let ghost table0 = table@;
    let ghost orig = entries@;
    let n = entries.len();
    let mut rest = entries;
    let mut delta: Vec<(String, Component)> = Vec::new();
    let mut i: usize = 0;
    proof {
        assert(rest@ =~= orig.subrange(0, orig.len() as int));
        assert(entries0 =~= spec_comp_entries_view(orig));
        assert(delta.deep_view() =~= Seq::<(Seq<char>, ComponentV)>::empty());
        assert(entries0.subrange(0, entries0.len() as int) =~= entries0);
    }
    while rest.len() > 0
        invariant
            0 <= i <= n,
            n == orig.len(),
            rest@ == orig.subrange(i as int, orig.len() as int),
            entries0 == spec_comp_entries_view(orig),
            entries0.len() == orig.len(),
            spec_merge_component_map(oldv, Seq::empty(), table0, prefix@, dv, entries0)
                == spec_merge_component_map(
                oldv,
                delta.deep_view(),
                table@,
                prefix@,
                dv,
                entries0.subrange(i as int, entries0.len() as int),
            ),
        decreases rest@.len(),
    {
        let (name, comp) = rest.remove(0);
        proof {
            assert(orig.subrange(i as int, orig.len() as int)[0] == orig[i as int]);
            assert(rest@ =~= orig.subrange(i as int + 1, orig.len() as int));
            assert(entries0[i as int] == (orig[i as int].0@, orig[i as int].1.deep_view()));
            let remaining = entries0.subrange(i as int, entries0.len() as int);
            assert(remaining[0] == entries0[i as int]);
            assert(remaining.subrange(1, remaining.len() as int) =~= entries0.subrange(
                i as int + 1,
                entries0.len() as int,
            ));
        }
        let ghost delta_pre = delta.deep_view();
        let ghost table_pre = table@;
        let ghost namev = name@;
        let ghost compv = comp.deep_view();

        let modified = apply_dispute(dispute, name.as_str(), DisputeStatus::Undisputed);
        if modified != name {
            let from_ref = comp_ref_string(prefix, name.as_str());
            let to_ref = comp_ref_string(prefix, modified.as_str());
            table.set(from_ref, to_ref);
        }
        let placeable = match lookup_old_and_delta(acc, &delta, &modified) {
            Option::None => true,
            Option::Some(existing) => components_equal(existing, &comp),
        };
        if placeable {
            component_map_set(&mut delta, modified, comp);
        } else {
            let mut target: Option<String> = Option::None;
            match dispute {
                Option::Some(d) => {
                    let preferred = apply_dispute(
                        Option::Some(d),
                        name.as_str(),
                        DisputeStatus::Disputed,
                    );
                    let preferred_ok = match lookup_old_and_delta(acc, &delta, &preferred) {
                        Option::None => true,
                        Option::Some(existing) => components_equal(existing, &comp),
                    };
                    if preferred_ok {
                        target = Option::Some(preferred);
                    }
                },
                Option::None => {},
            }
            if target.is_none() {
                target = find_free_candidate(acc, &delta, &name);
            }
            match target {
                Option::Some(key) => {
                    let from_ref = comp_ref_string(prefix, name.as_str());
                    let to_ref = comp_ref_string(prefix, key.as_str());
                    table.set(from_ref, to_ref);
                    component_map_set(&mut delta, key, comp);
                },
                Option::None => {
                    let mut message = String::new();
                    message.append("The \"");
                    message.append(name.as_str());
                    message.append(
                        "\" definition had a duplicate in a previous input and could not be deduplicated.",
                    );
                    return Result::Err(
                        ErrorMergeResult {
                            error_type: ErrorType::ComponentDefinitionConflict,
                            message,
                        },
                    );
                },
            }
        }
        proof {
            assert(spec_merge_component_one(oldv, delta_pre, table_pre, prefix@, dv, namev, compv)
                == Result::Ok::<_, ErrorType>((delta.deep_view(), table@)));
        }
        i = i + 1;
    }
    proof {
        assert(entries0.subrange(entries0.len() as int, entries0.len() as int) =~= Seq::<(
            Seq<char>,
            ComponentV,
        )>::empty());
    }
    Result::Ok(delta)
}

/// Fold an input's schema map into the accumulator.
pub fn process_schemas(
    acc: &Vec<(String, Component)>,
    entries: Vec<(String, Component)>,
    dispute: Option<&Dispute>,
    table: &mut RewriteTable,
) -> (r: Result<Vec<(String, Component)>, ErrorMergeResult>)
    ensures
        match r {
            Result::Ok(delta) => spec_merge_component_map(
                acc.deep_view(),
                Seq::empty(),
                old(table)@,
                "schemas"@,
                dispute.deep_view(),
                entries.deep_view(),
            ) == Result::Ok::<_, ErrorType>((delta.deep_view(), final(table)@)),
            Result::Err(e) => spec_merge_component_map(
                acc.deep_view(),
                Seq::empty(),
                old(table)@,
                "schemas"@,
                dispute.deep_view(),
                entries.deep_view(),
            ) == Result::Err::<
                (Seq<(Seq<char>, ComponentV)>, Seq<(Seq<char>, Seq<char>)>),
                ErrorType,
            >(e.error_type) && e.error_type == ErrorType::ComponentDefinitionConflict,
        },
{
    process_components_with_prefix(acc, entries, dispute, table, "schemas")
}

/// Fold an input's response map into the accumulator.
pub fn process_responses(
    acc: &Vec<(String, Component)>,
    entries: Vec<(String, Component)>,
    dispute: Option<&Dispute>,
    table: &mut RewriteTable,
) -> (r: Result<Vec<(String, Component)>, ErrorMergeResult>)
    ensures
        match r {
            Result::Ok(delta) => spec_merge_component_map(
                acc.deep_view(),
                Seq::empty(),
                old(table)@,
                "responses"@,
                dispute.deep_view(),
                entries.deep_view(),
            ) == Result::Ok::<_, ErrorType>((delta.deep_view(), final(table)@)),
            Result::Err(e) => spec_merge_component_map(
                acc.deep_view(),
                Seq::empty(),
                old(table)@,
                "responses"@,
                dispute.deep_view(),
                entries.deep_view(),
            ) == Result::Err::<
                (Seq<(Seq<char>, ComponentV)>, Seq<(Seq<char>, Seq<char>)>),
                ErrorType,
            >(e.error_type) && e.error_type == ErrorType::ComponentDefinitionConflict,
        },
{
    process_components_with_prefix(acc, entries, dispute, table, "responses")
}

/// Fold an input's parameter map into the accumulator.
pub fn process_parameters(
    acc: &Vec<(String, Component)>,
    entries: Vec<(String, Component)>,
    dispute: Option<&Dispute>,
    table: &mut RewriteTable,
) -> (r: Result<Vec<(String, Component)>, ErrorMergeResult>)
    ensures
        match r {
            Result::Ok(delta) => spec_merge_component_map(
                acc.deep_view(),
                Seq::empty(),
                old(table)@,
                "parameters"@,
                dispute.deep_view(),
                entries.deep_view(),
            ) == Result::Ok::<_, ErrorType>((delta.deep_view(), final(table)@)),
            Result::Err(e) => spec_merge_component_map(
                acc.deep_view(),
                Seq::empty(),
                old(table)@,
                "parameters"@,
                dispute.deep_view(),
                entries.deep_view(),
            ) == Result::Err::<
                (Seq<(Seq<char>, ComponentV)>, Seq<(Seq<char>, Seq<char>)>),
                ErrorType,
            >(e.error_type) && e.error_type == ErrorType::ComponentDefinitionConflict,
        },
{
    process_components_with_prefix(acc, entries, dispute, table, "parameters")
}

// ------------------------------------------------------------------
// Executable path merging.
// ------------------------------------------------------------------

/// An input's paths folded into this input's path placements: the path is
/// rewritten, a rename is recorded, a duplicate is an error, and every
/// operation id is made globally fresh.
pub open spec fn spec_merge_paths(
    old_paths: Seq<(Seq<char>, PathItemV)>,
    delta: Seq<(Seq<char>, PathItemV)>,
    in_paths: Seq<(Seq<char>, PathItemV)>,
    pm: Option<PathModificationV>,
    dispute: Option<DisputeV>,
    seen: Seq<Seq<char>>,
    table: Seq<(Seq<char>, Seq<char>)>,
) -> Result<
    (Seq<(Seq<char>, PathItemV)>, Seq<Seq<char>>, Seq<(Seq<char>, Seq<char>)>),
    ErrorType,
>
    decreases in_paths.len(),
{
    if in_paths.len() == 0 {
        Result::Ok((delta, seen, table))
    } else {
        let p = in_paths[0].0;
        let item = in_paths[0].1;
        let newp = spec_modify_path(p, pm);
        let table1 = if newp != p {
            spec_table_set(table, path_ref(p), path_ref(newp))
        } else {
            table
        };
        if assoc_get(old_paths, newp) is Some || assoc_get(delta, newp) is Some {
            Result::Err(ErrorType::DuplicatePaths)
        } else {
            match spec_ensure_unique_ids(item, seen, dispute) {
                Result::Err(e) => Result::Err(e),
                Result::Ok((item2, seen2)) => spec_merge_paths(
                    old_paths,
                    delta.push((newp, item2)),
                    in_paths.subrange(1, in_paths.len() as int),
                    pm,
                    dispute,
                    seen2,
                    table1,
                ),
            }
        }
    }
}

/// Fold an input's paths into this input's path placements, following
/// [`spec_merge_paths`].
#[verifier::loop_isolation(false)]
fn merge_input_paths(
    old_paths: &Vec<(String, PathItem)>,
    in_paths: Vec<(String, PathItem)>,
    pm: Option<&PathModification>,
    dispute: Option<&Dispute>,
    seen: &mut Vec<String>,
    table: &mut RewriteTable,
    input_index: usize,
) -> (r: Result<Vec<(String, PathItem)>, ErrorMergeResult>)
    ensures
        match r {
            Result::Ok(delta) => spec_merge_paths(
                old_paths.deep_view(),
                Seq::empty(),
                in_paths.deep_view(),
                pm.deep_view(),
                dispute.deep_view(),
                old(seen).deep_view(),
                old(table)@,
            ) == Result::Ok::<_, ErrorType>(
                (delta.deep_view(), final(seen).deep_view(), final(table)@),
            ),
            Result::Err(e) => spec_merge_paths(
                old_paths.deep_view(),
                Seq::empty(),
                in_paths.deep_view(),
                pm.deep_view(),
                dispute.deep_view(),
                old(seen).deep_view(),
                old(table)@,
            ) == Result::Err::<
                (Seq<(Seq<char>, PathItemV)>, Seq<Seq<char>>, Seq<(Seq<char>, Seq<char>)>),
                ErrorType,
            >(e.error_type),
        },
{
    let ghost oldv = old_paths.deep_view();
    let ghost pmv = pm.deep_view();
    let ghost dv = dispute.deep_view();
    let ghost in0 = in_paths.deep_view();
    let ghost seen0 = seen.deep_view();
    let ghost table0 = table@;
    let ghost orig = in_paths@;
    let n = in_paths.len();
    let mut rest = in_paths;
    let mut delta: Vec<(String, PathItem)> = Vec::new();
    let mut i: usize = 0;
    proof {
        assert(rest@ =~= orig.subrange(0, orig.len() as int));
        assert(in0 =~= crate::merge::operation_selection::spec_paths_view(orig));
        assert(delta.deep_view() =~= Seq::<(Seq<char>, PathItemV)>::empty());
        assert(in0.subrange(0, in0.len() as int) =~= in0);
    }
    while rest.len() > 0
        invariant
            0 <= i <= n,
            n == orig.len(),
            rest@ == orig.subrange(i as int, orig.len() as int),
            in0 == crate::merge::operation_selection::spec_paths_view(orig),
            in0.len() == orig.len(),
            spec_merge_paths(oldv, Seq::empty(), in0, pmv, dv, seen0, table0) == spec_merge_paths(
                oldv,
                delta.deep_view(),
                in0.subrange(i as int, in0.len() as int),
                pmv,
                dv,
                seen.deep_view(),
                table@,
            ),
        decreases rest@.len(),
    {
        let (p, item) = rest.remove(0);
        proof {
            assert(orig.subrange(i as int, orig.len() as int)[0] == orig[i as int]);
            assert(rest@ =~= orig.subrange(i as int + 1, orig.len() as int));
            assert(in0[i as int] == (orig[i as int].0@, orig[i as int].1.deep_view()));
            let remaining = in0.subrange(i as int, in0.len() as int);
            assert(remaining[0] == in0[i as int]);
            assert(remaining.subrange(1, remaining.len() as int) =~= in0.subrange(
                i as int + 1,
                in0.len() as int,
            ));
        }
        let ghost delta_pre = delta.deep_view();

        let new_path = apply_path_modification(&p, pm);
        if new_path != p {
            let from_ref = path_ref_string(p.as_str());
            let to_ref = path_ref_string(new_path.as_str());
            table.set(from_ref, to_ref);
        }
        if path_map_has(old_paths, &new_path) || path_map_has(&delta, &new_path) {
            let mut message = String::new();
            message.append("Input ");
            let idx = u64_to_dec(input_index as u64);
            message.append(idx.as_str());
            message.append(": The path '");
            message.append(p.as_str());
            message.append("' maps to '");
            message.append(new_path.as_str());
            message.append("' and this has already been added by another input file");
            return Result::Err(
                ErrorMergeResult { error_type: ErrorType::DuplicatePaths, message },
            );
        }
        let item2 = match ensure_unique_operation_ids(item, seen, dispute) {
            Result::Ok(it) => it,
            Result::Err(e) => {
                return Result::Err(e);
            },
        };
        delta.push((new_path, item2));
        proof {
            assert(delta.deep_view() =~= delta_pre.push(
                (delta@[delta@.len() - 1].0@, delta@[delta@.len() - 1].1.deep_view()),
            ));
        }
        i = i + 1;
    }
    proof {
        assert(in0.subrange(in0.len() as int, in0.len() as int) =~= Seq::<(
            Seq<char>,
            PathItemV,
        )>::empty());
    }
    Result::Ok(delta)
}

// ------------------------------------------------------------------
// Folding an input's placements into the accumulator.
// ------------------------------------------------------------------

/// `old` with every entry of `delta` bound, in order: an existing key is
/// replaced in place, a new key is appended.
pub open spec fn spec_fold_in<V>(old: Seq<(Seq<char>, V)>, delta: Seq<(Seq<char>, V)>) -> Seq<
    (Seq<char>, V),
>
    decreases delta.len(),
{
    if delta.len() == 0 {
        old
    } else {
        spec_fold_in(
            assoc_set(old, delta[0].0, delta[0].1),
            delta.subrange(1, delta.len() as int),
        )
    }
}

/// Fold this input's placements into the accumulator, following
/// [`spec_fold_in`].
#[verifier::loop_isolation(false)]
fn fold_component_map(acc: &mut Vec<(String, Component)>, delta: Vec<(String, Component)>)
    ensures
        final(acc).deep_view() == spec_fold_in(old(acc).deep_view(), delta.deep_view()),
{
    let ghost acc0 = old(acc).deep_view();
    let ghost delta0 = delta.deep_view();
    let ghost orig = delta@;
    let n = delta.len();
    let mut rest = delta;
    let mut i: usize = 0;
    proof {
        assert(rest@ =~= orig.subrange(0, orig.len() as int));
        assert(delta0 =~= spec_comp_entries_view(orig));
        assert(delta0.subrange(0, delta0.len() as int) =~= delta0);
    }
    while rest.len() > 0
        invariant
            0 <= i <= n,
            n == orig.len(),
            rest@ == orig.subrange(i as int, orig.len() as int),
            delta0 == spec_comp_entries_view(orig),
            delta0.len() == orig.len(),
            spec_fold_in(acc0, delta0) == spec_fold_in(
                acc.deep_view(),
                delta0.subrange(i as int, delta0.len() as int),
            ),
        decreases rest@.len(),
    {
        let (k, v) = rest.remove(0);
        proof {
            assert(orig.subrange(i as int, orig.len() as int)[0] == orig[i as int]);
            assert(rest@ =~= orig.subrange(i as int + 1, orig.len() as int));
            assert(delta0[i as int] == (orig[i as int].0@, orig[i as int].1.deep_view()));
            let remaining = delta0.subrange(i as int, delta0.len() as int);
            assert(remaining[0] == delta0[i as int]);
            assert(remaining.subrange(1, remaining.len() as int) =~= delta0.subrange(
                i as int + 1,
                delta0.len() as int,
            ));
        }
        component_map_set(acc, k, v);
        i = i + 1;
    }
    proof {
        assert(delta0.subrange(delta0.len() as int, delta0.len() as int) =~= Seq::<(
            Seq<char>,
            ComponentV,
        )>::empty());
    }
}

/// The empty components region.
pub open spec fn empty_components_v() -> ComponentsV {
    ComponentsV {
        schemas: Seq::empty(),
        responses: Seq::empty(),
        parameters: Seq::empty(),
        examples: Seq::empty(),
        request_bodies: Seq::empty(),
        headers: Seq::empty(),
        links: Seq::empty(),
        callbacks: Seq::empty(),
        security_schemes: Seq::empty(),
        extra: JsonV::Null,
    }
}

/// An empty components region.
pub fn empty_components() -> (r: Components)
    ensures
        r.deep_view() == empty_components_v(),
{
    let r = Components {
        schemas: Vec::new(),
        responses: Vec::new(),
        parameters: Vec::new(),
        examples: Vec::new(),
        request_bodies: Vec::new(),
        headers: Vec::new(),
        links: Vec::new(),
        callbacks: Vec::new(),
        security_schemes: Vec::new(),
        extra: Json::Null,
    };
    proof {
        assert(r.deep_view().schemas =~= Seq::<(Seq<char>, ComponentV)>::empty());
        assert(r.deep_view().responses =~= Seq::<(Seq<char>, ComponentV)>::empty());
        assert(r.deep_view().parameters =~= Seq::<(Seq<char>, ComponentV)>::empty());
        assert(r.deep_view().examples =~= Seq::<(Seq<char>, ComponentV)>::empty());
        assert(r.deep_view().request_bodies =~= Seq::<(Seq<char>, ComponentV)>::empty());
        assert(r.deep_view().headers =~= Seq::<(Seq<char>, ComponentV)>::empty());
        assert(r.deep_view().links =~= Seq::<(Seq<char>, ComponentV)>::empty());
        assert(r.deep_view().callbacks =~= Seq::<(Seq<char>, ComponentV)>::empty());
        assert(r.deep_view().security_schemes =~= Seq::<(Seq<char>, JsonV)>::empty());
    }
    r
}

// ------------------------------------------------------------------
// One whole input.
// ------------------------------------------------------------------

/// The merge accumulator: the paths and components collected so far, and
/// every operation id already taken.
#[verifier::ext_equal]
pub struct MergeAccV {
    pub paths: Seq<(Seq<char>, PathItemV)>,
    pub components: ComponentsV,
    pub seen: Seq<Seq<char>>,
}

pub open spec fn empty_acc_v() -> MergeAccV {
    MergeAccV { paths: Seq::empty(), components: empty_components_v(), seen: Seq::empty() }
}

/// All eight component kinds of one input folded into placements, in the
/// fixed kind order, sharing one growing rewrite table.
pub open spec fn spec_merge_all_kinds(
    oldc: ComponentsV,
    ic: ComponentsV,
    dispute: Option<DisputeV>,
    table: Seq<(Seq<char>, Seq<char>)>,
) -> Result<(ComponentsV, Seq<(Seq<char>, Seq<char>)>), ErrorType> {
    match spec_merge_component_map(oldc.schemas, Seq::empty(), table, "schemas"@, dispute, ic.schemas) {
        Result::Err(e) => Result::Err(e),
        Result::Ok((d_schemas, t1)) => match spec_merge_component_map(
            oldc.responses,
            Seq::empty(),
            t1,
            "responses"@,
            dispute,
            ic.responses,
        ) {
            Result::Err(e) => Result::Err(e),
            Result::Ok((d_responses, t2)) => match spec_merge_component_map(
                oldc.parameters,
                Seq::empty(),
                t2,
                "parameters"@,
                dispute,
                ic.parameters,
            ) {
                Result::Err(e) => Result::Err(e),
                Result::Ok((d_parameters, t3)) => match spec_merge_component_map(
                    oldc.examples,
                    Seq::empty(),
                    t3,
                    "examples"@,
                    dispute,
                    ic.examples,
                ) {
                    Result::Err(e) => Result::Err(e),
                    Result::Ok((d_examples, t4)) => match spec_merge_component_map(
                        oldc.request_bodies,
                        Seq::empty(),
                        t4,
                        "requestBodies"@,
                        dispute,
                        ic.request_bodies,
                    ) {
                        Result::Err(e) => Result::Err(e),
                        Result::Ok((d_request_bodies, t5)) => match spec_merge_component_map(
                            oldc.headers,
                            Seq::empty(),
                            t5,
                            "headers"@,
                            dispute,
                            ic.headers,
                        ) {
                            Result::Err(e) => Result::Err(e),
                            Result::Ok((d_headers, t6)) => match spec_merge_component_map(
                                oldc.links,
                                Seq::empty(),
                                t6,
                                "links"@,
                                dispute,
                                ic.links,
                            ) {
                                Result::Err(e) => Result::Err(e),
                                Result::Ok((d_links, t7)) => match spec_merge_component_map(
                                    oldc.callbacks,
                                    Seq::empty(),
                                    t7,
                                    "callbacks"@,
                                    dispute,
                                    ic.callbacks,
                                ) {
                                    Result::Err(e) => Result::Err(e),
                                    Result::Ok((d_callbacks, t8)) => Result::Ok(
                                        (
                                            ComponentsV {
                                                schemas: d_schemas,
                                                responses: d_responses,
                                                parameters: d_parameters,
                                                examples: d_examples,
                                                request_bodies: d_request_bodies,
                                                headers: d_headers,
                                                links: d_links,
                                                callbacks: d_callbacks,
                                                security_schemes: Seq::empty(),
                                                extra: JsonV::Null,
                                            },
                                            t8,
                                        ),
                                    ),
                                },
                            },
                        },
                    },
                },
            },
        },
    }
}

/// One input folded into the accumulator: selection, dropping empty path
/// items, component merging, the security-scheme rule, path merging, and
/// the rewrite of everything this input placed.
pub open spec fn spec_merge_single_input(acc: MergeAccV, input: SingleMergeInputV) -> Result<
    MergeAccV,
    ErrorType,
> {
    let dispute = spec_get_dispute(input);
    let doc = spec_drop_empty_doc(spec_run_selection(input.oas, input.operation_selection));
    let ic = match doc.components {
        Option::Some(c) => c,
        Option::None => empty_components_v(),
    };
    match spec_merge_all_kinds(
        acc.components,
        ic,
        dispute,
        crate::merge::reference_walker::empty_table(),
    ) {
        Result::Err(e) => Result::Err(e),
        Result::Ok((cd, t)) => {
            let sec = if acc.components.security_schemes.len() == 0 && ic.security_schemes.len()
                > 0 {
                ic.security_schemes
            } else {
                Seq::empty()
            };
            match spec_merge_paths(
                acc.paths,
                Seq::empty(),
                doc.paths,
                input.path_modification,
                dispute,
                acc.seen,
                t,
            ) {
                Result::Err(e) => Result::Err(e),
                Result::Ok((pd, seen2, t2)) => Result::Ok(
                    MergeAccV {
                        paths: acc.paths + spec_walk_path_item_map(pd, t2),
                        components: ComponentsV {
                            schemas: spec_fold_in(
                                acc.components.schemas,
                                spec_walk_component_map(cd.schemas, t2),
                            ),
                            responses: spec_fold_in(
                                acc.components.responses,
                                spec_walk_component_map(cd.responses, t2),
                            ),
                            parameters: spec_fold_in(
                                acc.components.parameters,
                                spec_walk_component_map(cd.parameters, t2),
                            ),
                            examples: spec_fold_in(
                                acc.components.examples,
                                spec_walk_component_map(cd.examples, t2),
                            ),
                            request_bodies: spec_fold_in(
                                acc.components.request_bodies,
                                spec_walk_component_map(cd.request_bodies, t2),
                            ),
                            headers: spec_fold_in(
                                acc.components.headers,
                                spec_walk_component_map(cd.headers, t2),
                            ),
                            links: spec_fold_in(
                                acc.components.links,
                                spec_walk_component_map(cd.links, t2),
                            ),
                            callbacks: spec_fold_in(
                                acc.components.callbacks,
                                spec_walk_component_map(cd.callbacks, t2),
                            ),
                            security_schemes: acc.components.security_schemes + sec,
                            extra: acc.components.extra,
                        },
                        seen: seen2,
                    },
                ),
            }
        },
    }
}

pub open spec fn spec_merge_pc_loop(acc: MergeAccV, ins: Seq<SingleMergeInputV>) -> Result<
    MergeAccV,
    ErrorType,
>
    decreases ins.len(),
{
    if ins.len() == 0 {
        Result::Ok(acc)
    } else {
        match spec_merge_single_input(acc, ins[0]) {
            Result::Err(e) => Result::Err(e),
            Result::Ok(acc2) => spec_merge_pc_loop(acc2, ins.subrange(1, ins.len() as int)),
        }
    }
}

/// What merging paths and components returns over all inputs.
pub open spec fn spec_merge_paths_components(ins: Seq<SingleMergeInputV>) -> Result<
    (Seq<(Seq<char>, PathItemV)>, ComponentsV),
    ErrorType,
> {
    match spec_merge_pc_loop(empty_acc_v(), ins) {
        Result::Err(e) => Result::Err(e),
        Result::Ok(acc) => Result::Ok((acc.paths, acc.components)),
    }
}

/// Merge the paths and components of all inputs, following
/// [`spec_merge_paths_components`].
#[verifier::loop_isolation(false)]
#[verifier::rlimit(100)]
pub fn merge_paths_and_components(inputs: &MergeInput) -> (r: Result<
    (Vec<(String, PathItem)>, Components),
    ErrorMergeResult,
>)
    ensures
        match r {
            Result::Ok((paths, components)) => spec_merge_paths_components(inputs.deep_view())
                == Result::Ok::<_, ErrorType>((paths.deep_view(), components.deep_view())),
            Result::Err(e) => spec_merge_paths_components(inputs.deep_view()) == Result::Err::<
                (Seq<(Seq<char>, PathItemV)>, ComponentsV),
                ErrorType,
            >(e.error_type),
        },
{
    let ghost insv = inputs.deep_view();
    let mut result_paths: Vec<(String, PathItem)> = Vec::new();
    let mut result_components = empty_components();
    let mut seen: Vec<String> = Vec::new();
    let mut input_index: usize = 0;
    let ghost acc0 = empty_acc_v();
    proof {
        assert(result_paths.deep_view() =~= Seq::<(Seq<char>, PathItemV)>::empty());
        assert(seen.deep_view() =~= Seq::<Seq<char>>::empty());
        assert(insv.subrange(0, insv.len() as int) =~= insv);
    }
    while input_index < inputs.len()
        invariant
            0 <= input_index <= inputs@.len(),
            insv.len() == inputs@.len(),
            spec_merge_pc_loop(acc0, insv) == spec_merge_pc_loop(
                MergeAccV {
                    paths: result_paths.deep_view(),
                    components: result_components.deep_view(),
                    seen: seen.deep_view(),
                },
                insv.subrange(input_index as int, insv.len() as int),
            ),
        decreases inputs@.len() - input_index,
    {
        let ghost acc_pre = MergeAccV {
            paths: result_paths.deep_view(),
            components: result_components.deep_view(),
            seen: seen.deep_view(),
        };
        let input = &inputs[input_index];
        proof {
            assert(insv[input_index as int] == inputs@[input_index as int].deep_view());
            let remaining = insv.subrange(input_index as int, insv.len() as int);
            assert(remaining[0] == insv[input_index as int]);
            assert(remaining.subrange(1, remaining.len() as int) =~= insv.subrange(
                input_index as int + 1,
                insv.len() as int,
            ));
        }
        let ghost inputv = input.deep_view();

        // A scratch copy of the input document, by walking it with an
        // empty table.
        let empty = RewriteTable::new();
        let scratch = walk_all_references(&input.oas, &empty);
        proof {
            assert(empty@ =~= crate::merge::reference_walker::empty_table());
            lemma_walk_document_empty(input.oas.deep_view());
            assert(scratch.deep_view() == inputv.oas);
        }
        let sel_ref = input.operation_selection.as_ref();
        proof {
            assert(sel_ref.deep_view() == inputv.operation_selection);
        }
        let scratch = run_operation_selection(scratch, sel_ref);
        let scratch = drop_path_items_with_no_operations(scratch);
        let ghost docv = scratch.deep_view();

        let dispute = get_dispute(input);
        let ghost dv = spec_get_dispute(inputv);
        let dispute_ref = dispute.as_ref();
        proof {
            assert(dispute.deep_view() == dv);
            assert(dispute_ref.deep_view() == dv);
        }

        let Document { paths: in_paths, components: in_components, .. } = scratch;
        let in_comps = match in_components {
            Option::Some(c) => c,
            Option::None => empty_components(),
        };
        let ghost icv = match docv.components {
            Option::Some(c) => c,
            Option::None => empty_components_v(),
        };
        proof {
            assert(in_comps.deep_view() == icv);
        }
        let Components {
            schemas: in_schemas,
            responses: in_responses,
            parameters: in_parameters,
            examples: in_examples,
            request_bodies: in_request_bodies,
            headers: in_headers,
            links: in_links,
            callbacks: in_callbacks,
            security_schemes: in_security,
            extra: _,
        } = in_comps;

        let mut table = RewriteTable::new();
        proof {
            assert(table@ =~= crate::merge::reference_walker::empty_table());
        }

        let d_schemas = match process_schemas(
            &result_components.schemas,
            in_schemas,
            dispute_ref,
            &mut table,
        ) {
            Result::Ok(d) => d,
            Result::Err(e) => {
                return Result::Err(e);
            },
        };
        let d_responses = match process_responses(
            &result_components.responses,
            in_responses,
            dispute_ref,
            &mut table,
        ) {
            Result::Ok(d) => d,
            Result::Err(e) => {
                return Result::Err(e);
            },
        };
        let d_parameters = match process_parameters(
            &result_components.parameters,
            in_parameters,
            dispute_ref,
            &mut table,
        ) {
            Result::Ok(d) => d,
            Result::Err(e) => {
                return Result::Err(e);
            },
        };
        let d_examples = match process_components_with_prefix(
            &result_components.examples,
            in_examples,
            dispute_ref,
            &mut table,
            "examples",
        ) {
            Result::Ok(d) => d,
            Result::Err(e) => {
                return Result::Err(e);
            },
        };
        let d_request_bodies = match process_components_with_prefix(
            &result_components.request_bodies,
            in_request_bodies,
            dispute_ref,
            &mut table,
            "requestBodies",
        ) {
            Result::Ok(d) => d,
            Result::Err(e) => {
                return Result::Err(e);
            },
        };
        let d_headers = match process_components_with_prefix(
            &result_components.headers,
            in_headers,
            dispute_ref,
            &mut table,
            "headers",
        ) {
            Result::Ok(d) => d,
            Result::Err(e) => {
                return Result::Err(e);
            },
        };
        let d_links = match process_components_with_prefix(
            &result_components.links,
            in_links,
            dispute_ref,
            &mut table,
            "links",
        ) {
            Result::Ok(d) => d,
            Result::Err(e) => {
                return Result::Err(e);
            },
        };
        let d_callbacks = match process_components_with_prefix(
            &result_components.callbacks,
            in_callbacks,
            dispute_ref,
            &mut table,
            "callbacks",
        ) {
            Result::Ok(d) => d,
            Result::Err(e) => {
                return Result::Err(e);
            },
        };
        proof {
            assert(spec_merge_all_kinds(
                acc_pre.components,
                icv,
                dv,
                crate::merge::reference_walker::empty_table(),
            ) == Result::Ok::<_, ErrorType>(
                (
                    ComponentsV {
                        schemas: d_schemas.deep_view(),
                        responses: d_responses.deep_view(),
                        parameters: d_parameters.deep_view(),
                        examples: d_examples.deep_view(),
                        request_bodies: d_request_bodies.deep_view(),
                        headers: d_headers.deep_view(),
                        links: d_links.deep_view(),
                        callbacks: d_callbacks.deep_view(),
                        security_schemes: Seq::empty(),
                        extra: JsonV::Null,
                    },
                    table@,
                ),
            ));
        }

        let mut sec_delta: Vec<(String, Json)> = if result_components.security_schemes.len() == 0
            && in_security.len() > 0 {
            in_security
        } else {
            Vec::new()
        };
        let ghost secv = if acc_pre.components.security_schemes.len() == 0
            && icv.security_schemes.len() > 0 {
            icv.security_schemes
        } else {
            Seq::<(Seq<char>, JsonV)>::empty()
        };
        proof {
            assert(sec_delta.deep_view() =~= secv);
        }

        let pm_ref = input.path_modification.as_ref();
        proof {
            assert(pm_ref.deep_view() == inputv.path_modification);
        }
        let p_delta = match merge_input_paths(
            &result_paths,
            in_paths,
            pm_ref,
            dispute_ref,
            &mut seen,
            &mut table,
            input_index,
        ) {
            Result::Ok(d) => d,
            Result::Err(e) => {
                return Result::Err(e);
            },
        };

        // Apply this input's rewrite table to everything it placed.
        let w_schemas = walk_component_map(&d_schemas, &table);
        let w_responses = walk_component_map(&d_responses, &table);
        let w_parameters = walk_component_map(&d_parameters, &table);
        let w_examples = walk_component_map(&d_examples, &table);
        let w_request_bodies = walk_component_map(&d_request_bodies, &table);
        let w_headers = walk_component_map(&d_headers, &table);
        let w_links = walk_component_map(&d_links, &table);
        let w_callbacks = walk_component_map(&d_callbacks, &table);
        let mut w_paths = walk_path_item_map(&p_delta, &table);

        fold_component_map(&mut result_components.schemas, w_schemas);
        fold_component_map(&mut result_components.responses, w_responses);
        fold_component_map(&mut result_components.parameters, w_parameters);
        fold_component_map(&mut result_components.examples, w_examples);
        fold_component_map(&mut result_components.request_bodies, w_request_bodies);
        fold_component_map(&mut result_components.headers, w_headers);
        fold_component_map(&mut result_components.links, w_links);
        fold_component_map(&mut result_components.callbacks, w_callbacks);
        let ghost sec_pre = result_components.security_schemes.deep_view();
        result_components.security_schemes.append(&mut sec_delta);
        result_paths.append(&mut w_paths);

        proof {
            assert(result_components.security_schemes.deep_view() =~= sec_pre + secv);
            assert(result_paths.deep_view() =~= acc_pre.paths + spec_walk_path_item_map(
                p_delta.deep_view(),
                table@,
            ));
            let acc_post = MergeAccV {
                paths: result_paths.deep_view(),
                components: result_components.deep_view(),
                seen: seen.deep_view(),
            };
            assert(spec_merge_single_input(acc_pre, inputv) == Result::Ok::<_, ErrorType>(
                acc_post,
            ));
        }
        input_index = input_index + 1;
    }
    proof {
        assert(insv.subrange(insv.len() as int, insv.len() as int) =~= Seq::<
            SingleMergeInputV,
        >::empty());
    }
    Result::Ok((result_paths, result_components))
}

} // verus!
