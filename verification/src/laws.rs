//! Laws of the merge engine, proved from the contracts of its parts.

use vstd::prelude::*;
use crate::data::DisputeV;
use crate::data::ErrorType;
use crate::data::PathModificationV;
use crate::data::SingleMergeInputV;
use crate::model::DocumentV;
use crate::model::PathItemV;
use crate::model::OperationV;
use crate::merge::spec_merge;
use crate::merge::paths_components::MergeAccV;
use crate::merge::paths_components::assoc_get;
use crate::merge::paths_components::empty_acc_v;
use crate::merge::paths_components::spec_merge_paths;
use crate::merge::paths_components::spec_merge_pc_loop;
use crate::merge::paths_components::spec_merge_paths_components;
use crate::merge::paths_components::spec_merge_single_input;
use crate::merge::reference_walker::spec_walk_path_item_map;
use crate::merge::reference_walker::spec_walk_path_item;
use crate::merge::reference_walker::spec_walk_operation_opt;

verus! {

/// No two entries of the map carry the same key.
pub open spec fn keys_distinct<V>(m: Seq<(Seq<char>, V)>) -> bool {
    forall|i: int, j: int| 0 <= i < j < m.len() ==> (#[trigger] m[i]).0 != (#[trigger] m[j]).0
}

proof fn lemma_assoc_get_none_absent<V>(m: Seq<(Seq<char>, V)>, key: Seq<char>)
    ensures
        (assoc_get(m, key) is None) <==> (forall|i: int|
            0 <= i < m.len() ==> (#[trigger] m[i]).0 != key),
    decreases m.len(),
{
    if m.len() > 0 {
        let tail = m.subrange(1, m.len() as int);
        lemma_assoc_get_none_absent(tail, key);
        assert forall|i: int| 0 <= i < tail.len() implies #[trigger] tail[i] == m[i + 1] by {}
        if assoc_get(m, key) is None {
            assert forall|i: int| 0 <= i < m.len() implies (#[trigger] m[i]).0 != key by {
                if i > 0 {
                    assert(tail[i - 1] == m[i]);
                }
            }
        }
    }
}

proof fn lemma_walk_path_item_map_keys(
    es: Seq<(Seq<char>, PathItemV)>,
    t: Seq<(Seq<char>, Seq<char>)>,
)
    ensures
        spec_walk_path_item_map(es, t).len() == es.len(),
        forall|i: int|
            0 <= i < es.len() ==> (#[trigger] spec_walk_path_item_map(es, t)[i]) == (
                es[i].0,
                spec_walk_path_item(es[i].1, t),
            ),
    decreases es.len(),
{
    if es.len() > 0 {
        lemma_walk_path_item_map_keys(es.subrange(0, es.len() - 1), t);
        assert forall|i: int|
            0 <= i < es.len() implies (#[trigger] spec_walk_path_item_map(es, t)[i]) == (
            es[i].0,
            spec_walk_path_item(es[i].1, t),
        ) by {
            if i < es.len() - 1 {
                assert(es.subrange(0, es.len() - 1)[i] == es[i]);
            }
        }
    }
}

proof fn lemma_merge_paths_keys(
    old_paths: Seq<(Seq<char>, PathItemV)>,
    delta: Seq<(Seq<char>, PathItemV)>,
    in_paths: Seq<(Seq<char>, PathItemV)>,
    pm: Option<PathModificationV>,
    dispute: Option<DisputeV>,
    seen: Seq<Seq<char>>,
    table: Seq<(Seq<char>, Seq<char>)>,
    delta2: Seq<(Seq<char>, PathItemV)>,
    seen2: Seq<Seq<char>>,
    table2: Seq<(Seq<char>, Seq<char>)>,
)
    requires
        spec_merge_paths(old_paths, delta, in_paths, pm, dispute, seen, table) == Result::Ok::<
            _,
            ErrorType,
        >((delta2, seen2, table2)),
        keys_distinct(delta),
        forall|i: int|
            0 <= i < delta.len() ==> assoc_get(old_paths, (#[trigger] delta[i]).0) is None,
    ensures
        keys_distinct(delta2),
        forall|i: int|
            0 <= i < delta2.len() ==> assoc_get(old_paths, (#[trigger] delta2[i]).0) is None,
    decreases in_paths.len(),
{
    if in_paths.len() > 0 {
        let p = in_paths[0].0;
        let item = in_paths[0].1;
        let newp = crate::merge::paths_components::spec_modify_path(p, pm);
        let table1 = if newp != p {
            crate::merge::reference_walker::spec_table_set(
                table,
                crate::merge::paths_components::path_ref(p),
                crate::merge::paths_components::path_ref(newp),
            )
        } else {
            table
        };
        if assoc_get(old_paths, newp) is Some || assoc_get(delta, newp) is Some {
        } else {
            match crate::merge::paths_components::spec_ensure_unique_ids(item, seen, dispute) {
                Result::Err(_) => {},
                Result::Ok((item2, seen_mid)) => {
                    let delta_next = delta.push((newp, item2));
                    lemma_assoc_get_none_absent(delta, newp);
                    assert(keys_distinct(delta_next)) by {
                        assert forall|i: int, j: int|
                            0 <= i < j < delta_next.len() implies (#[trigger] delta_next[i]).0 != (
                            #[trigger] delta_next[j]).0 by {
                            if j < delta.len() {
                                assert(delta_next[i] == delta[i]);
                                assert(delta_next[j] == delta[j]);
                            } else {
                                assert(delta_next[i] == delta[i]);
                                assert(delta_next[j] == (newp, item2));
                            }
                        }
                    }
                    assert forall|i: int|
                        0 <= i < delta_next.len() implies assoc_get(
                        old_paths,
                        (#[trigger] delta_next[i]).0,
                    ) is None by {
                        if i < delta.len() {
                            assert(delta_next[i] == delta[i]);
                        }
                    }
                    lemma_merge_paths_keys(
                        old_paths,
                        delta_next,
                        in_paths.subrange(1, in_paths.len() as int),
                        pm,
                        dispute,
                        seen_mid,
                        table1,
                        delta2,
                        seen2,
                        table2,
                    );
                },
            }
        }
    }
}

proof fn lemma_single_input_paths_distinct(
    acc: MergeAccV,
    input: SingleMergeInputV,
    acc2: MergeAccV,
)
    requires
        spec_merge_single_input(acc, input) == Result::Ok::<MergeAccV, ErrorType>(acc2),
        keys_distinct(acc.paths),
    ensures
        keys_distinct(acc2.paths),
{
    let dispute = crate::merge::dispute::spec_get_dispute(input);
    let doc = crate::merge::paths_components::spec_drop_empty_doc(
        crate::merge::operation_selection::spec_run_selection(
            input.oas,
            input.operation_selection,
        ),
    );
    let ic = match doc.components {
        Option::Some(c) => c,
        Option::None => crate::merge::paths_components::empty_components_v(),
    };
    match crate::merge::paths_components::spec_merge_all_kinds(
        acc.components,
        ic,
        dispute,
        crate::merge::reference_walker::empty_table(),
    ) {
        Result::Err(_) => {},
        Result::Ok((cd, t)) => {
            match spec_merge_paths(
                acc.paths,
                Seq::empty(),
                doc.paths,
                input.path_modification,
                dispute,
                acc.seen,
                t,
            ) {
                Result::Err(_) => {},
                Result::Ok((pd, seen2, t2)) => {
                    assert(keys_distinct(Seq::<(Seq<char>, PathItemV)>::empty()));
                    lemma_merge_paths_keys(
                        acc.paths,
                        Seq::empty(),
                        doc.paths,
                        input.path_modification,
                        dispute,
                        acc.seen,
                        t,
                        pd,
                        seen2,
                        t2,
                    );
                    let walked = spec_walk_path_item_map(pd, t2);
                    lemma_walk_path_item_map_keys(pd, t2);
                    let combined = acc.paths + walked;
                    assert(acc2.paths == combined);
                    assert(keys_distinct(combined)) by {
                        assert forall|i: int, j: int|
                            0 <= i < j < combined.len() implies (#[trigger] combined[i]).0 != (
                            #[trigger] combined[j]).0 by {
                            if i < acc.paths.len() && j >= acc.paths.len() {
                                let dj = j - acc.paths.len();
                                assert(combined[j].0 == pd[dj].0);
                                assert(assoc_get(acc.paths, pd[dj].0) is None);
                                lemma_assoc_get_none_absent(acc.paths, pd[dj].0);
                            } else if i >= acc.paths.len() {
                                let di = i - acc.paths.len();
                                let dj = j - acc.paths.len();
                                assert(combined[i].0 == pd[di].0);
                                assert(combined[j].0 == pd[dj].0);
                            }
                        }
                    }
                },
            }
        },
    }
}

proof fn lemma_pc_loop_paths_distinct(acc: MergeAccV, ins: Seq<SingleMergeInputV>, acc2: MergeAccV)
    requires
        spec_merge_pc_loop(acc, ins) == Result::Ok::<MergeAccV, ErrorType>(acc2),
        keys_distinct(acc.paths),
    ensures
        keys_distinct(acc2.paths),
    decreases ins.len(),
{
    if ins.len() > 0 {
        match spec_merge_single_input(acc, ins[0]) {
            Result::Err(_) => {},
            Result::Ok(mid) => {
                lemma_single_input_paths_distinct(acc, ins[0], mid);
                lemma_pc_loop_paths_distinct(mid, ins.subrange(1, ins.len() as int), acc2);
            },
        }
    }
}

// ------------------------------------------------------------------
// Operation ids.
// ------------------------------------------------------------------

/// The id an operation slot carries, as a sequence of zero or one ids.
pub open spec fn slot_ids(o: Option<OperationV>) -> Seq<Seq<char>> {
    match o {
        Option::Some(op) => match op.operation_id {
            Option::Some(id) => seq![id],
            Option::None => Seq::empty(),
        },
        Option::None => Seq::empty(),
    }
}

/// Every operation id a path item carries, slot by slot.
pub open spec fn item_op_ids(p: PathItemV) -> Seq<Seq<char>> {
    match p {
        PathItemV::Ref(_) => Seq::empty(),
        PathItemV::Item { get, put, post, delete, options, head, patch, trace, .. } => slot_ids(
            get,
        ) + slot_ids(put) + slot_ids(post) + slot_ids(delete) + slot_ids(options) + slot_ids(head)
            + slot_ids(patch) + slot_ids(trace),
    }
}

/// Every operation id a path map carries, in order.
pub open spec fn paths_op_ids(ps: Seq<(Seq<char>, PathItemV)>) -> Seq<Seq<char>>
    decreases ps.len(),
{
    if ps.len() == 0 {
        Seq::empty()
    } else {
        paths_op_ids(ps.subrange(0, ps.len() - 1)) + item_op_ids(ps[ps.len() - 1].1)
    }
}

/// No value occurs twice.
pub open spec fn no_dups(s: Seq<Seq<char>>) -> bool {
    forall|i: int, j: int| 0 <= i < j < s.len() ==> s[i] != s[j]
}

use crate::merge::operation_selection::tag_in;

/// Every element of `a` occurs in `b`.
pub open spec fn ids_within(a: Seq<Seq<char>>, b: Seq<Seq<char>>) -> bool {
    forall|i: int| 0 <= i < a.len() ==> tag_in(b, #[trigger] a[i])
}

/// No element of `a` occurs in `b`.
pub open spec fn ids_outside(a: Seq<Seq<char>>, b: Seq<Seq<char>>) -> bool {
    forall|i: int| 0 <= i < a.len() ==> !tag_in(b, #[trigger] a[i])
}

proof fn lemma_tag_in_push(s: Seq<Seq<char>>, x: Seq<char>, y: Seq<char>)
    ensures
        tag_in(s.push(x), y) <==> (tag_in(s, y) || y == x),
{
    if tag_in(s, y) {
        let i = choose|i: int| 0 <= i < s.len() && s[i] == y;
        assert(s.push(x)[i] == y);
    }
    if y == x {
        assert(s.push(x)[s.len() as int] == y);
    }
    if tag_in(s.push(x), y) {
        let i = choose|i: int| 0 <= i < s.push(x).len() && s.push(x)[i] == y;
        if i < s.len() {
            assert(s[i] == y);
        }
    }
}

proof fn lemma_tag_in_concat(a: Seq<Seq<char>>, b: Seq<Seq<char>>, y: Seq<char>)
    ensures
        tag_in(a + b, y) <==> (tag_in(a, y) || tag_in(b, y)),
{
    if tag_in(a, y) {
        let i = choose|i: int| 0 <= i < a.len() && a[i] == y;
        assert((a + b)[i] == y);
    }
    if tag_in(b, y) {
        let i = choose|i: int| 0 <= i < b.len() && b[i] == y;
        assert((a + b)[a.len() + i] == y);
    }
    if tag_in(a + b, y) {
        let i = choose|i: int| 0 <= i < (a + b).len() && (a + b)[i] == y;
        if i < a.len() {
            assert(a[i] == y);
        } else {
            assert(b[i - a.len()] == y);
        }
    }
}

proof fn lemma_find_free_id_fresh(op_id: Seq<char>, seen: Seq<Seq<char>>, n: int, c: Seq<char>)
    requires
        crate::merge::paths_components::spec_find_free_id(op_id, seen, n) == Option::Some(c),
    ensures
        !tag_in(seen, c),
    decreases 1000 - n,
{
    if n < 1 || n >= 1000 {
    } else {
        let candidate = op_id + crate::text::spec_dec(n);
        if !tag_in(seen, candidate) {
        } else {
            lemma_find_free_id_fresh(op_id, seen, n + 1, c);
        }
    }
}

proof fn lemma_find_unique_fresh(
    op_id: Seq<char>,
    seen: Seq<Seq<char>>,
    dispute: Option<DisputeV>,
    id2: Seq<char>,
)
    requires
        crate::merge::paths_components::spec_find_unique_operation_id(op_id, seen, dispute)
            == Result::Ok::<Seq<char>, ErrorType>(id2),
    ensures
        !tag_in(seen, id2),
{
    if !tag_in(seen, op_id) {
    } else {
        let renamed = crate::merge::dispute::spec_apply_dispute(
            dispute,
            op_id,
            crate::merge::dispute::DisputeStatus::Disputed,
        );
        if dispute is Some && !tag_in(seen, renamed) {
        } else {
            match crate::merge::paths_components::spec_find_free_id(op_id, seen, 1) {
                Option::Some(c) => {
                    lemma_find_free_id_fresh(op_id, seen, 1, c);
                },
                Option::None => {},
            }
        }
    }
}

proof fn lemma_uniquify_slot_ids(
    o: Option<OperationV>,
    seen: Seq<Seq<char>>,
    dispute: Option<DisputeV>,
    o2: Option<OperationV>,
    seen2: Seq<Seq<char>>,
)
    requires
        crate::merge::paths_components::spec_uniquify_slot(o, seen, dispute) == Result::Ok::<
            (Option<OperationV>, Seq<Seq<char>>),
            ErrorType,
        >((o2, seen2)),
    ensures
        no_dups(slot_ids(o2)),
        ids_within(slot_ids(o2), seen2),
        ids_outside(slot_ids(o2), seen),
        forall|x: Seq<char>| tag_in(seen, x) ==> tag_in(seen2, x),
{
    match o {
        Option::None => {},
        Option::Some(op) => match op.operation_id {
            Option::None => {},
            Option::Some(id) => {
                match crate::merge::paths_components::spec_find_unique_operation_id(
                    id,
                    seen,
                    dispute,
                ) {
                    Result::Err(_) => {},
                    Result::Ok(new_id) => {
                        lemma_find_unique_fresh(id, seen, dispute, new_id);
                        assert forall|x: Seq<char>| tag_in(seen, x) implies tag_in(
                            seen2,
                            x,
                        ) by {
                            lemma_tag_in_push(seen, new_id, x);
                        }
                        lemma_tag_in_push(seen, new_id, new_id);
                        assert(slot_ids(o2) =~= seq![new_id]);
                    },
                }
            },
        },
    }
}

proof fn lemma_ensure_ids(
    item: PathItemV,
    seen: Seq<Seq<char>>,
    dispute: Option<DisputeV>,
    item2: PathItemV,
    seen2: Seq<Seq<char>>,
)
    requires
        crate::merge::paths_components::spec_ensure_unique_ids(item, seen, dispute)
            == Result::Ok::<(PathItemV, Seq<Seq<char>>), ErrorType>((item2, seen2)),
    ensures
        no_dups(item_op_ids(item2)),
        ids_within(item_op_ids(item2), seen2),
        ids_outside(item_op_ids(item2), seen),
        forall|x: Seq<char>| tag_in(seen, x) ==> tag_in(seen2, x),
{
    match item {
        PathItemV::Ref(_) => {
            assert(item_op_ids(item2) =~= Seq::<Seq<char>>::empty());
        },
        PathItemV::Item {
            get,
            put,
            post,
            delete,
            options,
            head,
            patch,
            trace,
            parameters,
            extra,
        } => {
            let r1 = crate::merge::paths_components::spec_uniquify_slot(get, seen, dispute);
            match r1 {
                Result::Err(_) => {},
                Result::Ok((get2, s1)) => {
                    lemma_uniquify_slot_ids(get, seen, dispute, get2, s1);
                    match crate::merge::paths_components::spec_uniquify_slot(put, s1, dispute) {
                        Result::Err(_) => {},
                        Result::Ok((put2, s2)) => {
                            lemma_uniquify_slot_ids(put, s1, dispute, put2, s2);
                            match crate::merge::paths_components::spec_uniquify_slot(
                                post,
                                s2,
                                dispute,
                            ) {
                                Result::Err(_) => {},
                                Result::Ok((post2, s3)) => {
                                    lemma_uniquify_slot_ids(post, s2, dispute, post2, s3);
                                    match crate::merge::paths_components::spec_uniquify_slot(
                                        delete,
                                        s3,
                                        dispute,
                                    ) {
                                        Result::Err(_) => {},
                                        Result::Ok((delete2, s4)) => {
                                            lemma_uniquify_slot_ids(
                                                delete,
                                                s3,
                                                dispute,
                                                delete2,
                                                s4,
                                            );
                                            match crate::merge::paths_components::spec_uniquify_slot(
                                                patch,
                                                s4,
                                                dispute,
                                            ) {
                                                Result::Err(_) => {},
                                                Result::Ok((patch2, s5)) => {
                                                    lemma_uniquify_slot_ids(
                                                        patch,
                                                        s4,
                                                        dispute,
                                                        patch2,
                                                        s5,
                                                    );
                                                    match crate::merge::paths_components::spec_uniquify_slot(
                                                        head,
                                                        s5,
                                                        dispute,
                                                    ) {
                                                        Result::Err(_) => {},
                                                        Result::Ok((head2, s6)) => {
                                                            lemma_uniquify_slot_ids(
                                                                head,
                                                                s5,
                                                                dispute,
                                                                head2,
                                                                s6,
                                                            );
                                                            match crate::merge::paths_components::spec_uniquify_slot(
                                                                trace,
                                                                s6,
                                                                dispute,
                                                            ) {
                                                                Result::Err(_) => {},
                                                                Result::Ok((trace2, s7)) => {
                                                                    lemma_uniquify_slot_ids(
                                                                        trace,
                                                                        s6,
                                                                        dispute,
                                                                        trace2,
                                                                        s7,
                                                                    );
                                                                    match crate::merge::paths_components::spec_uniquify_slot(
                                                                        options,
                                                                        s7,
                                                                        dispute,
                                                                    ) {
                                                                        Result::Err(_) => {},
                                                                        Result::Ok(
                                                                            (options2, s8),
                                                                        ) => {
                                                                            lemma_uniquify_slot_ids(
                                                                                options,
                                                                                s7,
                                                                                dispute,
                                                                                options2,
                                                                                s8,
                                                                            );
                                                                            lemma_ensure_ids_assemble(
                                                                                seen,
                                                                                s1,
                                                                                s2,
                                                                                s3,
                                                                                s4,
                                                                                s5,
                                                                                s6,
                                                                                s7,
                                                                                s8,
                                                                                get2,
                                                                                put2,
                                                                                post2,
                                                                                delete2,
                                                                                options2,
                                                                                head2,
                                                                                patch2,
                                                                                trace2,
                                                                                item2,
                                                                            );
                                                                        },
                                                                    }
                                                                },
                                                            }
                                                        },
                                                    }
                                                },
                                            }
                                        },
                                    }
                                },
                            }
                        },
                    }
                },
            }
        },
    }
}

#[verifier::rlimit(60)]
proof fn lemma_ensure_ids_assemble(
    seen: Seq<Seq<char>>,
    s1: Seq<Seq<char>>,
    s2: Seq<Seq<char>>,
    s3: Seq<Seq<char>>,
    s4: Seq<Seq<char>>,
    s5: Seq<Seq<char>>,
    s6: Seq<Seq<char>>,
    s7: Seq<Seq<char>>,
    s8: Seq<Seq<char>>,
    get2: Option<OperationV>,
    put2: Option<OperationV>,
    post2: Option<OperationV>,
    delete2: Option<OperationV>,
    options2: Option<OperationV>,
    head2: Option<OperationV>,
    patch2: Option<OperationV>,
    trace2: Option<OperationV>,
    item2: PathItemV,
)
    requires
        item2 matches PathItemV::Item { get, put, post, delete, options, head, patch, trace, .. }
            && get == get2 && put == put2 && post == post2 && delete == delete2 && options
            == options2 && head == head2 && patch == patch2 && trace == trace2,
        no_dups(slot_ids(get2)),
        ids_within(slot_ids(get2), s1),
        ids_outside(slot_ids(get2), seen),
        forall|x: Seq<char>| tag_in(seen, x) ==> tag_in(s1, x),
        no_dups(slot_ids(put2)),
        ids_within(slot_ids(put2), s2),
        ids_outside(slot_ids(put2), s1),
        forall|x: Seq<char>| tag_in(s1, x) ==> tag_in(s2, x),
        no_dups(slot_ids(post2)),
        ids_within(slot_ids(post2), s3),
        ids_outside(slot_ids(post2), s2),
        forall|x: Seq<char>| tag_in(s2, x) ==> tag_in(s3, x),
        no_dups(slot_ids(delete2)),
        ids_within(slot_ids(delete2), s4),
        ids_outside(slot_ids(delete2), s3),
        forall|x: Seq<char>| tag_in(s3, x) ==> tag_in(s4, x),
        no_dups(slot_ids(patch2)),
        ids_within(slot_ids(patch2), s5),
        ids_outside(slot_ids(patch2), s4),
        forall|x: Seq<char>| tag_in(s4, x) ==> tag_in(s5, x),
        no_dups(slot_ids(head2)),
        ids_within(slot_ids(head2), s6),
        ids_outside(slot_ids(head2), s5),
        forall|x: Seq<char>| tag_in(s5, x) ==> tag_in(s6, x),
        no_dups(slot_ids(trace2)),
        ids_within(slot_ids(trace2), s7),
        ids_outside(slot_ids(trace2), s6),
        forall|x: Seq<char>| tag_in(s6, x) ==> tag_in(s7, x),
        no_dups(slot_ids(options2)),
        ids_within(slot_ids(options2), s8),
        ids_outside(slot_ids(options2), s7),
        forall|x: Seq<char>| tag_in(s7, x) ==> tag_in(s8, x),
    ensures
        no_dups(item_op_ids(item2)),
        ids_within(item_op_ids(item2), s8),
        ids_outside(item_op_ids(item2), seen),
        forall|x: Seq<char>| tag_in(seen, x) ==> tag_in(s8, x),
{
    let all = item_op_ids(item2);
    assert(all == slot_ids(get2) + slot_ids(put2) + slot_ids(post2) + slot_ids(delete2)
        + slot_ids(options2) + slot_ids(head2) + slot_ids(patch2) + slot_ids(trace2));
    // Each slot holds at most one id; reason about membership in the later
    // seen sets, which only grow.
    assert forall|x: Seq<char>| tag_in(seen, x) implies tag_in(s8, x) by {}
    assert forall|i: int, j: int| 0 <= i < j < all.len() implies all[i] != all[j] by {
        let xi = all[i];
        let xj = all[j];
        // The id at the earlier index is within the seen set at the time
        // the later one was chosen, and the later one is outside it.
        lemma_slot_ids_positions(
            get2, put2, post2, delete2, options2, head2, patch2, trace2, seen, s1, s2, s3, s4,
            s5, s6, s7, s8, i, j,
        );
    }
    assert forall|i: int| 0 <= i < all.len() implies tag_in(s8, #[trigger] all[i]) by {
        lemma_slot_ids_member(
            get2, put2, post2, delete2, options2, head2, patch2, trace2, seen, s1, s2, s3, s4,
            s5, s6, s7, s8, i,
        );
    }
    assert forall|i: int| 0 <= i < all.len() implies !tag_in(seen, #[trigger] all[i]) by {
        lemma_slot_ids_member(
            get2, put2, post2, delete2, options2, head2, patch2, trace2, seen, s1, s2, s3, s4,
            s5, s6, s7, s8, i,
        );
    }
}

/// Which slot the id at position `i` of the concatenation comes from, and
/// the freshness facts that follow.
#[verifier::rlimit(100)]
proof fn lemma_slot_ids_member(
    get2: Option<OperationV>,
    put2: Option<OperationV>,
    post2: Option<OperationV>,
    delete2: Option<OperationV>,
    options2: Option<OperationV>,
    head2: Option<OperationV>,
    patch2: Option<OperationV>,
    trace2: Option<OperationV>,
    seen: Seq<Seq<char>>,
    s1: Seq<Seq<char>>,
    s2: Seq<Seq<char>>,
    s3: Seq<Seq<char>>,
    s4: Seq<Seq<char>>,
    s5: Seq<Seq<char>>,
    s6: Seq<Seq<char>>,
    s7: Seq<Seq<char>>,
    s8: Seq<Seq<char>>,
    i: int,
)
    requires
        ids_within(slot_ids(get2), s1),
        ids_outside(slot_ids(get2), seen),
        forall|x: Seq<char>| tag_in(seen, x) ==> tag_in(s1, x),
        ids_within(slot_ids(put2), s2),
        ids_outside(slot_ids(put2), s1),
        forall|x: Seq<char>| tag_in(s1, x) ==> tag_in(s2, x),
        ids_within(slot_ids(post2), s3),
        ids_outside(slot_ids(post2), s2),
        forall|x: Seq<char>| tag_in(s2, x) ==> tag_in(s3, x),
        ids_within(slot_ids(delete2), s4),
        ids_outside(slot_ids(delete2), s3),
        forall|x: Seq<char>| tag_in(s3, x) ==> tag_in(s4, x),
        ids_within(slot_ids(patch2), s5),
        ids_outside(slot_ids(patch2), s4),
        forall|x: Seq<char>| tag_in(s4, x) ==> tag_in(s5, x),
        ids_within(slot_ids(head2), s6),
        ids_outside(slot_ids(head2), s5),
        forall|x: Seq<char>| tag_in(s5, x) ==> tag_in(s6, x),
        ids_within(slot_ids(trace2), s7),
        ids_outside(slot_ids(trace2), s6),
        forall|x: Seq<char>| tag_in(s6, x) ==> tag_in(s7, x),
        ids_within(slot_ids(options2), s8),
        ids_outside(slot_ids(options2), s7),
        forall|x: Seq<char>| tag_in(s7, x) ==> tag_in(s8, x),
        0 <= i < (slot_ids(get2) + slot_ids(put2) + slot_ids(post2) + slot_ids(delete2)
            + slot_ids(options2) + slot_ids(head2) + slot_ids(patch2) + slot_ids(trace2)).len(),
    ensures
        tag_in(
            s8,
            (slot_ids(get2) + slot_ids(put2) + slot_ids(post2) + slot_ids(delete2) + slot_ids(
                options2,
            ) + slot_ids(head2) + slot_ids(patch2) + slot_ids(trace2))[i],
        ),
        !tag_in(
            seen,
            (slot_ids(get2) + slot_ids(put2) + slot_ids(post2) + slot_ids(delete2) + slot_ids(
                options2,
            ) + slot_ids(head2) + slot_ids(patch2) + slot_ids(trace2))[i],
        ),
{
}

/// Two distinct positions of the slot-id concatenation hold distinct ids.
#[verifier::rlimit(100)]
proof fn lemma_slot_ids_positions(
    get2: Option<OperationV>,
    put2: Option<OperationV>,
    post2: Option<OperationV>,
    delete2: Option<OperationV>,
    options2: Option<OperationV>,
    head2: Option<OperationV>,
    patch2: Option<OperationV>,
    trace2: Option<OperationV>,
    seen: Seq<Seq<char>>,
    s1: Seq<Seq<char>>,
    s2: Seq<Seq<char>>,
    s3: Seq<Seq<char>>,
    s4: Seq<Seq<char>>,
    s5: Seq<Seq<char>>,
    s6: Seq<Seq<char>>,
    s7: Seq<Seq<char>>,
    s8: Seq<Seq<char>>,
    i: int,
    j: int,
)
    requires
        ids_within(slot_ids(get2), s1),
        ids_outside(slot_ids(get2), seen),
        forall|x: Seq<char>| tag_in(seen, x) ==> tag_in(s1, x),
        ids_within(slot_ids(put2), s2),
        ids_outside(slot_ids(put2), s1),
        forall|x: Seq<char>| tag_in(s1, x) ==> tag_in(s2, x),
        ids_within(slot_ids(post2), s3),
        ids_outside(slot_ids(post2), s2),
        forall|x: Seq<char>| tag_in(s2, x) ==> tag_in(s3, x),
        ids_within(slot_ids(delete2), s4),
        ids_outside(slot_ids(delete2), s3),
        forall|x: Seq<char>| tag_in(s3, x) ==> tag_in(s4, x),
        ids_within(slot_ids(patch2), s5),
        ids_outside(slot_ids(patch2), s4),
        forall|x: Seq<char>| tag_in(s4, x) ==> tag_in(s5, x),
        ids_within(slot_ids(head2), s6),
        ids_outside(slot_ids(head2), s5),
        forall|x: Seq<char>| tag_in(s5, x) ==> tag_in(s6, x),
        ids_within(slot_ids(trace2), s7),
        ids_outside(slot_ids(trace2), s6),
        forall|x: Seq<char>| tag_in(s6, x) ==> tag_in(s7, x),
        ids_within(slot_ids(options2), s8),
        ids_outside(slot_ids(options2), s7),
        forall|x: Seq<char>| tag_in(s7, x) ==> tag_in(s8, x),
        0 <= i < j < (slot_ids(get2) + slot_ids(put2) + slot_ids(post2) + slot_ids(delete2)
            + slot_ids(options2) + slot_ids(head2) + slot_ids(patch2) + slot_ids(trace2)).len(),
    ensures
        (slot_ids(get2) + slot_ids(put2) + slot_ids(post2) + slot_ids(delete2) + slot_ids(options2)
            + slot_ids(head2) + slot_ids(patch2) + slot_ids(trace2))[i] != (slot_ids(get2)
            + slot_ids(put2) + slot_ids(post2) + slot_ids(delete2) + slot_ids(options2) + slot_ids(
            head2,
        ) + slot_ids(patch2) + slot_ids(trace2))[j],
{
}

proof fn lemma_paths_ids_push(a: Seq<(Seq<char>, PathItemV)>, e: (Seq<char>, PathItemV))
    ensures
        paths_op_ids(a.push(e)) == paths_op_ids(a) + item_op_ids(e.1),
{
    let p = a.push(e);
    assert(p.subrange(0, p.len() - 1) =~= a);
    assert(p[p.len() - 1] == e);
}

proof fn lemma_paths_ids_concat(a: Seq<(Seq<char>, PathItemV)>, b: Seq<(Seq<char>, PathItemV)>)
    ensures
        paths_op_ids(a + b) =~= paths_op_ids(a) + paths_op_ids(b),
    decreases b.len(),
{
    if b.len() == 0 {
        assert(a + b =~= a);
        assert(paths_op_ids(b) =~= Seq::<Seq<char>>::empty());
        assert(paths_op_ids(a) + paths_op_ids(b) =~= paths_op_ids(a));
    } else {
        let front = b.subrange(0, b.len() - 1);
        lemma_paths_ids_concat(a, front);
        let c = a + b;
        assert(c.subrange(0, c.len() - 1) =~= a + front);
        assert(c[c.len() - 1] == b[b.len() - 1]);
        assert(paths_op_ids(c) == paths_op_ids(a + front) + item_op_ids(b[b.len() - 1].1));
        assert(paths_op_ids(b) == paths_op_ids(front) + item_op_ids(b[b.len() - 1].1));
    }
}

proof fn lemma_walk_slot_ids(o: Option<OperationV>, t: Seq<(Seq<char>, Seq<char>)>)
    ensures
        slot_ids(spec_walk_operation_opt(o, t)) == slot_ids(o),
{
}

proof fn lemma_walk_item_ids(p: PathItemV, t: Seq<(Seq<char>, Seq<char>)>)
    ensures
        item_op_ids(spec_walk_path_item(p, t)) == item_op_ids(p),
{
    match p {
        PathItemV::Ref(_) => {},
        PathItemV::Item { get, put, post, delete, options, head, patch, trace, .. } => {
            lemma_walk_slot_ids(get, t);
            lemma_walk_slot_ids(put, t);
            lemma_walk_slot_ids(post, t);
            lemma_walk_slot_ids(delete, t);
            lemma_walk_slot_ids(options, t);
            lemma_walk_slot_ids(head, t);
            lemma_walk_slot_ids(patch, t);
            lemma_walk_slot_ids(trace, t);
        },
    }
}

proof fn lemma_walk_paths_ids(es: Seq<(Seq<char>, PathItemV)>, t: Seq<(Seq<char>, Seq<char>)>)
    ensures
        paths_op_ids(spec_walk_path_item_map(es, t)) =~= paths_op_ids(es),
    decreases es.len(),
{
    if es.len() > 0 {
        let front = es.subrange(0, es.len() - 1);
        lemma_walk_paths_ids(front, t);
        lemma_walk_item_ids(es[es.len() - 1].1, t);
        lemma_paths_ids_push(
            spec_walk_path_item_map(front, t),
            (es[es.len() - 1].0, spec_walk_path_item(es[es.len() - 1].1, t)),
        );
        assert(paths_op_ids(es) == paths_op_ids(front) + item_op_ids(es[es.len() - 1].1));
    }
}

proof fn lemma_merge_paths_ids(
    old_paths: Seq<(Seq<char>, PathItemV)>,
    delta: Seq<(Seq<char>, PathItemV)>,
    in_paths: Seq<(Seq<char>, PathItemV)>,
    pm: Option<PathModificationV>,
    dispute: Option<DisputeV>,
    seen: Seq<Seq<char>>,
    table: Seq<(Seq<char>, Seq<char>)>,
    seen0: Seq<Seq<char>>,
    delta2: Seq<(Seq<char>, PathItemV)>,
    seen2: Seq<Seq<char>>,
    table2: Seq<(Seq<char>, Seq<char>)>,
)
    requires
        spec_merge_paths(old_paths, delta, in_paths, pm, dispute, seen, table) == Result::Ok::<
            _,
            ErrorType,
        >((delta2, seen2, table2)),
        no_dups(paths_op_ids(delta)),
        ids_within(paths_op_ids(delta), seen),
        ids_outside(paths_op_ids(delta), seen0),
        forall|x: Seq<char>| tag_in(seen0, x) ==> tag_in(seen, x),
    ensures
        no_dups(paths_op_ids(delta2)),
        ids_within(paths_op_ids(delta2), seen2),
        ids_outside(paths_op_ids(delta2), seen0),
        forall|x: Seq<char>| tag_in(seen0, x) ==> tag_in(seen2, x),
    decreases in_paths.len(),
{
    if in_paths.len() > 0 {
        let p = in_paths[0].0;
        let item = in_paths[0].1;
        let newp = crate::merge::paths_components::spec_modify_path(p, pm);
        let table1 = if newp != p {
            crate::merge::reference_walker::spec_table_set(
                table,
                crate::merge::paths_components::path_ref(p),
                crate::merge::paths_components::path_ref(newp),
            )
        } else {
            table
        };
        if assoc_get(old_paths, newp) is Some || assoc_get(delta, newp) is Some {
        } else {
            match crate::merge::paths_components::spec_ensure_unique_ids(item, seen, dispute) {
                Result::Err(_) => {},
                Result::Ok((item2, seen_mid)) => {
                    lemma_ensure_ids(item, seen, dispute, item2, seen_mid);
                    let delta_next = delta.push((newp, item2));
                    lemma_paths_ids_push(delta, (newp, item2));
                    let old_ids = paths_op_ids(delta);
                    let new_ids = item_op_ids(item2);
                    let all_ids = paths_op_ids(delta_next);
                    assert(all_ids == old_ids + new_ids);
                    assert(no_dups(all_ids)) by {
                        assert forall|i: int, j: int|
                            0 <= i < j < all_ids.len() implies all_ids[i] != all_ids[j] by {
                            if i < old_ids.len() && j >= old_ids.len() {
                                assert(all_ids[i] == old_ids[i]);
                                assert(all_ids[j] == new_ids[j - old_ids.len()]);
                                assert(tag_in(seen, old_ids[i]));
                                assert(!tag_in(seen, new_ids[j - old_ids.len()]));
                            } else if i < old_ids.len() {
                                assert(all_ids[i] == old_ids[i]);
                                assert(all_ids[j] == old_ids[j]);
                            } else {
                                assert(all_ids[i] == new_ids[i - old_ids.len()]);
                                assert(all_ids[j] == new_ids[j - old_ids.len()]);
                            }
                        }
                    }
                    assert(ids_within(all_ids, seen_mid)) by {
                        assert forall|i: int|
                            0 <= i < all_ids.len() implies tag_in(seen_mid, #[trigger] all_ids[i])
                        by {
                            if i < old_ids.len() {
                                assert(all_ids[i] == old_ids[i]);
                                assert(tag_in(seen, old_ids[i]));
                            } else {
                                assert(all_ids[i] == new_ids[i - old_ids.len()]);
                            }
                        }
                    }
                    assert(ids_outside(all_ids, seen0)) by {
                        assert forall|i: int|
                            0 <= i < all_ids.len() implies !tag_in(seen0, #[trigger] all_ids[i])
                        by {
                            if i < old_ids.len() {
                                assert(all_ids[i] == old_ids[i]);
                            } else {
                                assert(all_ids[i] == new_ids[i - old_ids.len()]);
                                assert(!tag_in(seen, new_ids[i - old_ids.len()]));
                            }
                        }
                    }
                    lemma_merge_paths_ids(
                        old_paths,
                        delta_next,
                        in_paths.subrange(1, in_paths.len() as int),
                        pm,
                        dispute,
                        seen_mid,
                        table1,
                        seen0,
                        delta2,
                        seen2,
                        table2,
                    );
                },
            }
        }
    }
}

proof fn lemma_single_input_ids(acc: MergeAccV, input: SingleMergeInputV, acc2: MergeAccV)
    requires
        spec_merge_single_input(acc, input) == Result::Ok::<MergeAccV, ErrorType>(acc2),
        no_dups(paths_op_ids(acc.paths)),
        ids_within(paths_op_ids(acc.paths), acc.seen),
    ensures
        no_dups(paths_op_ids(acc2.paths)),
        ids_within(paths_op_ids(acc2.paths), acc2.seen),
{
    let dispute = crate::merge::dispute::spec_get_dispute(input);
    let doc = crate::merge::paths_components::spec_drop_empty_doc(
        crate::merge::operation_selection::spec_run_selection(
            input.oas,
            input.operation_selection,
        ),
    );
    let ic = match doc.components {
        Option::Some(c) => c,
        Option::None => crate::merge::paths_components::empty_components_v(),
    };
    match crate::merge::paths_components::spec_merge_all_kinds(
        acc.components,
        ic,
        dispute,
        crate::merge::reference_walker::empty_table(),
    ) {
        Result::Err(_) => {},
        Result::Ok((cd, t)) => {
            match spec_merge_paths(
                acc.paths,
                Seq::empty(),
                doc.paths,
                input.path_modification,
                dispute,
                acc.seen,
                t,
            ) {
                Result::Err(_) => {},
                Result::Ok((pd, seen2, t2)) => {
                    assert(paths_op_ids(Seq::<(Seq<char>, PathItemV)>::empty()) =~= Seq::<
                        Seq<char>,
                    >::empty());
                    lemma_merge_paths_ids(
                        acc.paths,
                        Seq::empty(),
                        doc.paths,
                        input.path_modification,
                        dispute,
                        acc.seen,
                        t,
                        acc.seen,
                        pd,
                        seen2,
                        t2,
                    );
                    let walked = spec_walk_path_item_map(pd, t2);
                    lemma_walk_paths_ids(pd, t2);
                    lemma_paths_ids_concat(acc.paths, walked);
                    let acc_ids = paths_op_ids(acc.paths);
                    let new_ids = paths_op_ids(pd);
                    let all_ids = paths_op_ids(acc2.paths);
                    assert(all_ids =~= acc_ids + new_ids);
                    assert(no_dups(all_ids)) by {
                        assert forall|i: int, j: int|
                            0 <= i < j < all_ids.len() implies all_ids[i] != all_ids[j] by {
                            if i < acc_ids.len() && j >= acc_ids.len() {
                                assert(all_ids[i] == acc_ids[i]);
                                assert(all_ids[j] == new_ids[j - acc_ids.len()]);
                                assert(tag_in(acc.seen, acc_ids[i]));
                                assert(!tag_in(acc.seen, new_ids[j - acc_ids.len()]));
                            } else if i < acc_ids.len() {
                                assert(all_ids[i] == acc_ids[i]);
                                assert(all_ids[j] == acc_ids[j]);
                            } else {
                                assert(all_ids[i] == new_ids[i - acc_ids.len()]);
                                assert(all_ids[j] == new_ids[j - acc_ids.len()]);
                            }
                        }
                    }
                    assert(ids_within(all_ids, seen2)) by {
                        assert forall|i: int|
                            0 <= i < all_ids.len() implies tag_in(seen2, #[trigger] all_ids[i])
                        by {
                            if i < acc_ids.len() {
                                assert(all_ids[i] == acc_ids[i]);
                                assert(tag_in(acc.seen, acc_ids[i]));
                            } else {
                                assert(all_ids[i] == new_ids[i - acc_ids.len()]);
                            }
                        }
                    }
                },
            }
        },
    }
}

proof fn lemma_pc_loop_ids(acc: MergeAccV, ins: Seq<SingleMergeInputV>, acc2: MergeAccV)
    requires
        spec_merge_pc_loop(acc, ins) == Result::Ok::<MergeAccV, ErrorType>(acc2),
        no_dups(paths_op_ids(acc.paths)),
        ids_within(paths_op_ids(acc.paths), acc.seen),
    ensures
        no_dups(paths_op_ids(acc2.paths)),
    decreases ins.len(),
{
    if ins.len() == 0 {
    } else {
        match spec_merge_single_input(acc, ins[0]) {
            Result::Err(_) => {},
            Result::Ok(mid) => {
                lemma_single_input_ids(acc, ins[0], mid);
                lemma_pc_loop_ids(mid, ins.subrange(1, ins.len() as int), acc2);
            },
        }
    }
}

/// Operation ids in a successful merge's output are pairwise distinct.
pub proof fn lemma_merged_operation_ids_distinct(
    ins: Seq<SingleMergeInputV>,
    version: Option<Seq<char>>,
    d: DocumentV,
)
    requires
        spec_merge(ins, version) == Result::Ok::<DocumentV, ErrorType>(d),
    ensures
        no_dups(paths_op_ids(d.paths)),
{
    match spec_merge_paths_components(ins) {
        Result::Err(_) => {},
        Result::Ok((paths, components)) => {
            match spec_merge_pc_loop(empty_acc_v(), ins) {
                Result::Err(_) => {},
                Result::Ok(acc) => {
                    assert(paths_op_ids(empty_acc_v().paths) =~= Seq::<Seq<char>>::empty());
                    lemma_pc_loop_ids(empty_acc_v(), ins, acc);
                },
            }
        },
    }
}

// ------------------------------------------------------------------
// The identity law: a single input with no modifications.
// ------------------------------------------------------------------

use crate::model::ComponentV;
use crate::merge::paths_components::item_has_operations;
use crate::merge::paths_components::spec_drop_empty_paths;
use crate::merge::paths_components::spec_fold_in;
use crate::merge::paths_components::assoc_set;
use crate::merge::paths_components::spec_merge_component_map;
use crate::merge::paths_components::spec_uniquify_slot;
use crate::merge::paths_components::spec_ensure_unique_ids;

proof fn lemma_drop_empty_identity(ps: Seq<(Seq<char>, PathItemV)>)
    requires
        forall|i: int| 0 <= i < ps.len() ==> item_has_operations((#[trigger] ps[i]).1),
    ensures
        spec_drop_empty_paths(ps) =~= ps,
    decreases ps.len(),
{
    if ps.len() > 0 {
        let front = ps.subrange(0, ps.len() - 1);
        assert forall|i: int|
            0 <= i < front.len() implies item_has_operations((#[trigger] front[i]).1) by {
            assert(front[i] == ps[i]);
        }
        lemma_drop_empty_identity(front);
    }
}

proof fn lemma_assoc_get_push_none<V>(m: Seq<(Seq<char>, V)>, e: (Seq<char>, V), key: Seq<char>)
    requires
        assoc_get(m, key) is None,
        e.0 != key,
    ensures
        assoc_get(m.push(e), key) is None,
{
    lemma_assoc_get_none_absent(m, key);
    lemma_assoc_get_none_absent(m.push(e), key);
    assert forall|i: int| 0 <= i < m.push(e).len() implies (#[trigger] m.push(e)[i]).0 != key by {
        if i < m.len() {
            assert(m.push(e)[i] == m[i]);
        } else {
            assert(m.push(e)[i] == e);
        }
    }
}

proof fn lemma_fold_in_fresh<V>(old: Seq<(Seq<char>, V)>, delta: Seq<(Seq<char>, V)>)
    requires
        keys_distinct(delta),
        forall|i: int| 0 <= i < delta.len() ==> assoc_get(old, (#[trigger] delta[i]).0) is None,
    ensures
        spec_fold_in(old, delta) =~= old + delta,
    decreases delta.len(),
{
    if delta.len() == 0 {
        assert(old + delta =~= old);
    } else {
        let e0 = delta[0];
        lemma_assoc_get_none_absent(old, e0.0);
        crate::merge::paths_components::lemma_assoc_set_missing(old, e0.0, e0.1);
        let old2 = old.push(e0);
        let rest = delta.subrange(1, delta.len() as int);
        assert forall|i: int|
            0 <= i < rest.len() implies assoc_get(old2, (#[trigger] rest[i]).0) is None by {
            assert(rest[i] == delta[i + 1]);
            lemma_assoc_get_push_none(old, e0, rest[i].0);
        }
        assert(keys_distinct(rest)) by {
            assert forall|i: int, j: int|
                0 <= i < j < rest.len() implies (#[trigger] rest[i]).0 != (#[trigger] rest[j]).0
            by {
                assert(rest[i] == delta[i + 1]);
                assert(rest[j] == delta[j + 1]);
            }
        }
        lemma_fold_in_fresh(old2, rest);
        assert(old2 + rest =~= old + delta);
    }
}

proof fn lemma_merge_kind_identity(
    delta: Seq<(Seq<char>, ComponentV)>,
    table: Seq<(Seq<char>, Seq<char>)>,
    kind: Seq<char>,
    entries: Seq<(Seq<char>, ComponentV)>,
)
    requires
        keys_distinct(entries),
        forall|i: int| 0 <= i < entries.len() ==> assoc_get(delta, (#[trigger] entries[i]).0) is None,
    ensures
        spec_merge_component_map(Seq::empty(), delta, table, kind, Option::None, entries)
            == Result::Ok::<_, ErrorType>((delta + entries, table)),
    decreases entries.len(),
{
    if entries.len() == 0 {
        assert(delta + entries =~= delta);
    } else {
        let name = entries[0].0;
        let value = entries[0].1;
        assert(crate::merge::dispute::spec_apply_dispute(
            Option::None,
            name,
            crate::merge::dispute::DisputeStatus::Undisputed,
        ) == name);
        assert(assoc_get(Seq::<(Seq<char>, ComponentV)>::empty(), name) is None);
        assert(assoc_get(delta, name) is None);
        lemma_assoc_get_none_absent(delta, name);
        crate::merge::paths_components::lemma_assoc_set_missing(delta, name, value);
        let delta2 = delta.push((name, value));
        let rest = entries.subrange(1, entries.len() as int);
        assert forall|i: int|
            0 <= i < rest.len() implies assoc_get(delta2, (#[trigger] rest[i]).0) is None by {
            assert(rest[i] == entries[i + 1]);
            lemma_assoc_get_push_none(delta, (name, value), rest[i].0);
        }
        assert(keys_distinct(rest)) by {
            assert forall|i: int, j: int|
                0 <= i < j < rest.len() implies (#[trigger] rest[i]).0 != (#[trigger] rest[j]).0
            by {
                assert(rest[i] == entries[i + 1]);
                assert(rest[j] == entries[j + 1]);
            }
        }
        lemma_merge_kind_identity(delta2, table, kind, rest);
        assert(delta2 + rest =~= delta + entries);
    }
}

proof fn lemma_uniquify_slot_identity(o: Option<OperationV>, seen: Seq<Seq<char>>)
    requires
        ids_outside(slot_ids(o), seen),
    ensures
        spec_uniquify_slot(o, seen, Option::None) matches Result::Ok((o2, s2)) && o2 == o && (
        forall|x: Seq<char>|
            tag_in(s2, x) <==> (tag_in(seen, x) || tag_in(slot_ids(o), x))),
{
    match o {
        Option::None => {
            assert forall|x: Seq<char>|
                tag_in(seen, x) <==> (tag_in(seen, x) || tag_in(slot_ids(o), x)) by {}
        },
        Option::Some(op) => match op.operation_id {
            Option::None => {},
            Option::Some(id) => {
                assert(slot_ids(o)[0] == id);
                assert(!tag_in(seen, id));
                assert(crate::merge::paths_components::spec_find_unique_operation_id(
                    id,
                    seen,
                    Option::None,
                ) == Result::Ok::<Seq<char>, ErrorType>(id));
                let op2 = OperationV { operation_id: Option::Some(id), ..op };
                assert(op2 =~~= op);
                assert forall|x: Seq<char>|
                    tag_in(seen.push(id), x) <==> (tag_in(seen, x) || tag_in(slot_ids(o), x)) by {
                    lemma_tag_in_push(seen, id, x);
                    if tag_in(slot_ids(o), x) {
                        assert(slot_ids(o)[choose|i: int|
                            0 <= i < slot_ids(o).len() && slot_ids(o)[i] == x] == x);
                        assert(x == id);
                    }
                    if x == id {
                        assert(tag_in(slot_ids(o), x));
                    }
                }
            },
        },
    }
}

#[verifier::rlimit(100)]
proof fn lemma_ensure_ids_identity(item: PathItemV, seen: Seq<Seq<char>>)
    requires
        ids_outside(item_op_ids(item), seen),
        no_dups(item_op_ids(item)),
    ensures
        spec_ensure_unique_ids(item, seen, Option::None) matches Result::Ok((item2, s2)) && item2
            == item && (forall|x: Seq<char>|
            tag_in(s2, x) <==> (tag_in(seen, x) || tag_in(item_op_ids(item), x))),
{
    match item {
        PathItemV::Ref(_) => {
            assert(item_op_ids(item) =~= Seq::<Seq<char>>::empty());
        },
        PathItemV::Item {
            get,
            put,
            post,
            delete,
            options,
            head,
            patch,
            trace,
            parameters,
            extra,
        } => {
            let all = item_op_ids(item);
            let c1 = slot_ids(get);
            let c2 = c1 + slot_ids(put);
            let c3 = c2 + slot_ids(post);
            let c4 = c3 + slot_ids(delete);
            let c5 = c4 + slot_ids(options);
            let c6 = c5 + slot_ids(head);
            let c7 = c6 + slot_ids(patch);
            let c8 = c7 + slot_ids(trace);
            assert(all == c8);
            // Membership of each slot's id inside the concatenation, and
            // distinctness across slots, follow from the requires; walk
            // the chain in the order the uniquifier visits the slots.
            assert forall|x: Seq<char>|
                tag_in(all, x) <==> (tag_in(slot_ids(get), x) || tag_in(slot_ids(put), x)
                    || tag_in(slot_ids(post), x) || tag_in(slot_ids(delete), x) || tag_in(
                    slot_ids(options),
                    x,
                ) || tag_in(slot_ids(head), x) || tag_in(slot_ids(patch), x) || tag_in(
                    slot_ids(trace),
                    x,
                )) by {
                lemma_tag_in_concat(c7, slot_ids(trace), x);
                lemma_tag_in_concat(c6, slot_ids(patch), x);
                lemma_tag_in_concat(c5, slot_ids(head), x);
                lemma_tag_in_concat(c4, slot_ids(options), x);
                lemma_tag_in_concat(c3, slot_ids(delete), x);
                lemma_tag_in_concat(c2, slot_ids(post), x);
                lemma_tag_in_concat(c1, slot_ids(put), x);
            }
            // Index of each slot's id inside the concatenation.
            assert forall|i: int| 0 <= i < c1.len() implies all[i] == slot_ids(get)[i] by {}
            assert forall|i: int| 0 <= i < slot_ids(put).len() implies all[c1.len() + i]
                == slot_ids(put)[i] by {}
            assert forall|i: int| 0 <= i < slot_ids(post).len() implies all[c2.len() + i]
                == slot_ids(post)[i] by {}
            assert forall|i: int| 0 <= i < slot_ids(delete).len() implies all[c3.len() + i]
                == slot_ids(delete)[i] by {}
            assert forall|i: int| 0 <= i < slot_ids(options).len() implies all[c4.len() + i]
                == slot_ids(options)[i] by {}
            assert forall|i: int| 0 <= i < slot_ids(head).len() implies all[c5.len() + i]
                == slot_ids(head)[i] by {}
            assert forall|i: int| 0 <= i < slot_ids(patch).len() implies all[c6.len() + i]
                == slot_ids(patch)[i] by {}
            assert forall|i: int| 0 <= i < slot_ids(trace).len() implies all[c7.len() + i]
                == slot_ids(trace)[i] by {}
            lemma_ensure_ids_identity_steps(item, seen);
        },
    }
}

/// The slot-by-slot chain of the identity argument: with no dispute and
/// every id of the item fresh, each slot keeps its operation and the seen
/// set ends as the union.
#[verifier::rlimit(100)]
proof fn lemma_ensure_ids_identity_steps(item: PathItemV, seen: Seq<Seq<char>>)
    requires
        item is Item,
        ids_outside(item_op_ids(item), seen),
        no_dups(item_op_ids(item)),
        forall|i: int|
            0 <= i < item_op_ids(item).len() ==> !tag_in(seen, #[trigger] item_op_ids(item)[i]),
    ensures
        spec_ensure_unique_ids(item, seen, Option::None) matches Result::Ok((item2, s2)) && item2
            == item && (forall|x: Seq<char>|
            tag_in(s2, x) <==> (tag_in(seen, x) || tag_in(item_op_ids(item), x))),
{
    match item {
        PathItemV::Ref(_) => {},
        PathItemV::Item {
            get,
            put,
            post,
            delete,
            options,
            head,
            patch,
            trace,
            parameters,
            extra,
        } => {
            let all = item_op_ids(item);
            let c1 = slot_ids(get);
            let c2 = c1 + slot_ids(put);
            let c3 = c2 + slot_ids(post);
            let c4 = c3 + slot_ids(delete);
            let c5 = c4 + slot_ids(options);
            let c6 = c5 + slot_ids(head);
            let c7 = c6 + slot_ids(patch);
            let c8 = c7 + slot_ids(trace);
            assert(all == c8);
            let offs: Seq<int> = seq![
                0,
                c1.len() as int,
                c2.len() as int,
                c3.len() as int,
                c4.len() as int,
                c5.len() as int,
                c6.len() as int,
                c7.len() as int,
            ];
            let slots: Seq<Seq<Seq<char>>> = seq![
                slot_ids(get),
                slot_ids(put),
                slot_ids(post),
                slot_ids(delete),
                slot_ids(options),
                slot_ids(head),
                slot_ids(patch),
                slot_ids(trace),
            ];
            assert forall|k: int, i: int|
                0 <= k < 8 && 0 <= i < slots[k].len() implies all[offs[k] + i] == slots[k][i]
            by {}
            // Any two ids from different slots differ, and any slot id is
            // outside `seen`.
            assert forall|k: int, j: int, a: int, b: int|
                0 <= k < 8 && 0 <= j < 8 && k != j && 0 <= a < slots[k].len() && 0 <= b
                    < slots[j].len() implies slots[k][a] != slots[j][b] by {
                assert(all[offs[k] + a] == slots[k][a]);
                assert(all[offs[j] + b] == slots[j][b]);
            }
            assert forall|k: int, a: int|
                0 <= k < 8 && 0 <= a < slots[k].len() implies !tag_in(seen, slots[k][a]) by {
                assert(all[offs[k] + a] == slots[k][a]);
            }
            // Walk the chain in the uniquifier's order: get, put, post,
            // delete, patch, head, trace, options.
            lemma_uniquify_slot_identity(get, seen);
            let s1 = choose|s1: Seq<Seq<char>>|
                spec_uniquify_slot(get, seen, Option::None) == Result::Ok::<
                    (Option<OperationV>, Seq<Seq<char>>),
                    ErrorType,
                >((get, s1));
            assert(ids_outside(slot_ids(put), s1)) by {
                assert forall|i: int|
                    0 <= i < slot_ids(put).len() implies !tag_in(s1, #[trigger] slot_ids(put)[i])
                by {
                    assert(slots[1][i] == slot_ids(put)[i]);
                    assert(!tag_in(seen, slots[1][i]));
                    if tag_in(slot_ids(get), slots[1][i]) {
                        let a = choose|a: int|
                            0 <= a < slot_ids(get).len() && slot_ids(get)[a] == slots[1][i];
                        assert(slots[0][a] == slots[1][i]);
                    }
                }
            }
            lemma_uniquify_slot_identity(put, s1);
            let s2 = choose|s2: Seq<Seq<char>>|
                spec_uniquify_slot(put, s1, Option::None) == Result::Ok::<
                    (Option<OperationV>, Seq<Seq<char>>),
                    ErrorType,
                >((put, s2));
            assert(ids_outside(slot_ids(post), s2)) by {
                assert forall|i: int|
                    0 <= i < slot_ids(post).len() implies !tag_in(s2, #[trigger] slot_ids(post)[i])
                by {
                    let x = slots[2][i];
                    assert(!tag_in(seen, x));
                    lemma_not_in_earlier(slots, 2, i, x);
                }
            }
            lemma_uniquify_slot_identity(post, s2);
            let s3 = choose|s3: Seq<Seq<char>>|
                spec_uniquify_slot(post, s2, Option::None) == Result::Ok::<
                    (Option<OperationV>, Seq<Seq<char>>),
                    ErrorType,
                >((post, s3));
            assert(ids_outside(slot_ids(delete), s3)) by {
                assert forall|i: int|
                    0 <= i < slot_ids(delete).len() implies !tag_in(
                    s3,
                    #[trigger] slot_ids(delete)[i],
                ) by {
                    let x = slots[3][i];
                    assert(!tag_in(seen, x));
                    lemma_not_in_earlier(slots, 3, i, x);
                }
            }
            lemma_uniquify_slot_identity(delete, s3);
            let s4 = choose|s4: Seq<Seq<char>>|
                spec_uniquify_slot(delete, s3, Option::None) == Result::Ok::<
                    (Option<OperationV>, Seq<Seq<char>>),
                    ErrorType,
                >((delete, s4));
            assert(ids_outside(slot_ids(patch), s4)) by {
                assert forall|i: int|
                    0 <= i < slot_ids(patch).len() implies !tag_in(
                    s4,
                    #[trigger] slot_ids(patch)[i],
                ) by {
                    let x = slots[6][i];
                    assert(!tag_in(seen, x));
                    lemma_not_in_earlier(slots, 6, i, x);
                }
            }
            lemma_uniquify_slot_identity(patch, s4);
            let s5 = choose|s5: Seq<Seq<char>>|
                spec_uniquify_slot(patch, s4, Option::None) == Result::Ok::<
                    (Option<OperationV>, Seq<Seq<char>>),
                    ErrorType,
                >((patch, s5));
            assert(ids_outside(slot_ids(head), s5)) by {
                assert forall|i: int|
                    0 <= i < slot_ids(head).len() implies !tag_in(s5, #[trigger] slot_ids(head)[i])
                by {
                    let x = slots[5][i];
                    assert(!tag_in(seen, x));
                    lemma_not_in_earlier(slots, 5, i, x);
                }
            }
            lemma_uniquify_slot_identity(head, s5);
            let s6 = choose|s6: Seq<Seq<char>>|
                spec_uniquify_slot(head, s5, Option::None) == Result::Ok::<
                    (Option<OperationV>, Seq<Seq<char>>),
                    ErrorType,
                >((head, s6));
            assert(ids_outside(slot_ids(trace), s6)) by {
                assert forall|i: int|
                    0 <= i < slot_ids(trace).len() implies !tag_in(
                    s6,
                    #[trigger] slot_ids(trace)[i],
                ) by {
                    let x = slots[7][i];
                    assert(!tag_in(seen, x));
                    lemma_not_in_earlier(slots, 7, i, x);
                }
            }
            lemma_uniquify_slot_identity(trace, s6);
            let s7 = choose|s7: Seq<Seq<char>>|
                spec_uniquify_slot(trace, s6, Option::None) == Result::Ok::<
                    (Option<OperationV>, Seq<Seq<char>>),
                    ErrorType,
                >((trace, s7));
            assert(ids_outside(slot_ids(options), s7)) by {
                assert forall|i: int|
                    0 <= i < slot_ids(options).len() implies !tag_in(
                    s7,
                    #[trigger] slot_ids(options)[i],
                ) by {
                    let x = slots[4][i];
                    assert(!tag_in(seen, x));
                    lemma_not_in_earlier(slots, 4, i, x);
                }
            }
            lemma_uniquify_slot_identity(options, s7);
            let s8 = choose|s8: Seq<Seq<char>>|
                spec_uniquify_slot(options, s7, Option::None) == Result::Ok::<
                    (Option<OperationV>, Seq<Seq<char>>),
                    ErrorType,
                >((options, s8));
            let rebuilt = PathItemV::Item {
                get,
                put,
                post,
                delete,
                options,
                head,
                patch,
                trace,
                parameters,
                extra,
            };
            assert(rebuilt =~~= item);
            assert forall|x: Seq<char>|
                tag_in(s8, x) <==> (tag_in(seen, x) || tag_in(all, x)) by {
                lemma_tag_in_concat(c7, slot_ids(trace), x);
                lemma_tag_in_concat(c6, slot_ids(patch), x);
                lemma_tag_in_concat(c5, slot_ids(head), x);
                lemma_tag_in_concat(c4, slot_ids(options), x);
                lemma_tag_in_concat(c3, slot_ids(delete), x);
                lemma_tag_in_concat(c2, slot_ids(post), x);
                lemma_tag_in_concat(c1, slot_ids(put), x);
            }
        },
    }
}

/// An id of slot `k` occurs in no other slot: the slots sit at disjoint
/// positions of a duplicate-free concatenation.
proof fn lemma_not_in_earlier(slots: Seq<Seq<Seq<char>>>, k: int, i: int, x: Seq<char>)
    requires
        0 <= k < 8,
        0 <= i < slots[k].len(),
        slots[k][i] == x,
        forall|a: int, b: int, c: int, d: int|
            0 <= a < 8 && 0 <= b < 8 && a != b && 0 <= c < slots[a].len() && 0 <= d
                < slots[b].len() ==> slots[a][c] != slots[b][d],
    ensures
        forall|j: int| 0 <= j < 8 && j != k ==> !tag_in(slots[j], x),
{
    assert forall|j: int| 0 <= j < 8 && j != k implies !tag_in(slots[j], x) by {
        if tag_in(slots[j], x) {
            let d = choose|d: int| 0 <= d < slots[j].len() && slots[j][d] == x;
            assert(slots[k][i] != slots[j][d]);
        }
    }
}

proof fn lemma_paths_ids_head(ps: Seq<(Seq<char>, PathItemV)>)
    requires
        ps.len() > 0,
    ensures
        paths_op_ids(ps) =~= item_op_ids(ps[0].1) + paths_op_ids(ps.subrange(1, ps.len() as int)),
{
    let single = seq![ps[0]];
    let rest = ps.subrange(1, ps.len() as int);
    assert(ps =~= single + rest);
    lemma_paths_ids_concat(single, rest);
    assert(single.subrange(0, 0) =~= Seq::<(Seq<char>, PathItemV)>::empty());
    assert(paths_op_ids(single.subrange(0, 0)) =~= Seq::<Seq<char>>::empty());
    assert(single[0] == ps[0]);
    assert(paths_op_ids(single) =~= item_op_ids(ps[0].1));
}

#[verifier::rlimit(100)]
proof fn lemma_merge_paths_identity(
    delta: Seq<(Seq<char>, PathItemV)>,
    in_paths: Seq<(Seq<char>, PathItemV)>,
    seen: Seq<Seq<char>>,
    seen0: Seq<Seq<char>>,
    table: Seq<(Seq<char>, Seq<char>)>,
)
    requires
        keys_distinct(in_paths),
        forall|i: int|
            0 <= i < in_paths.len() ==> assoc_get(delta, (#[trigger] in_paths[i]).0) is None,
        no_dups(paths_op_ids(delta) + paths_op_ids(in_paths)),
        ids_outside(paths_op_ids(delta) + paths_op_ids(in_paths), seen0),
        forall|x: Seq<char>|
            tag_in(seen, x) <==> (tag_in(seen0, x) || tag_in(paths_op_ids(delta), x)),
    ensures
        spec_merge_paths(
            Seq::empty(),
            delta,
            in_paths,
            Option::None,
            Option::None,
            seen,
            table,
        ) matches Result::Ok((d2, s2, t2)) && d2 == delta + in_paths && t2 == table,
    decreases in_paths.len(),
{
    if in_paths.len() == 0 {
        assert(delta + in_paths =~= delta);
    } else {
        let p = in_paths[0].0;
        let item = in_paths[0].1;
        assert(crate::merge::paths_components::spec_modify_path(p, Option::None) == p);
        assert(assoc_get(Seq::<(Seq<char>, PathItemV)>::empty(), p) is None);
        assert(assoc_get(delta, p) is None);
        let dids = paths_op_ids(delta);
        let iids = item_op_ids(item);
        let rest = in_paths.subrange(1, in_paths.len() as int);
        let rids = paths_op_ids(rest);
        lemma_paths_ids_head(in_paths);
        let combined = dids + paths_op_ids(in_paths);
        assert(combined =~= dids + (iids + rids));
        assert forall|i: int| 0 <= i < iids.len() implies combined[dids.len() + i] == iids[i]
        by {}
        assert forall|i: int| 0 <= i < dids.len() implies combined[i] == dids[i] by {}
        assert(no_dups(iids)) by {
            assert forall|i: int, j: int| 0 <= i < j < iids.len() implies iids[i] != iids[j] by {
                assert(combined[dids.len() + i] == iids[i]);
                assert(combined[dids.len() + j] == iids[j]);
            }
        }
        assert(ids_outside(iids, seen)) by {
            assert forall|i: int| 0 <= i < iids.len() implies !tag_in(seen, #[trigger] iids[i])
            by {
                assert(combined[dids.len() + i] == iids[i]);
                assert(!tag_in(seen0, iids[i]));
                if tag_in(dids, iids[i]) {
                    let a = choose|a: int| 0 <= a < dids.len() && dids[a] == iids[i];
                    assert(combined[a] == combined[dids.len() + i]);
                }
            }
        }
        lemma_ensure_ids_identity(item, seen);
        let seen_mid = choose|s: Seq<Seq<char>>|
            spec_ensure_unique_ids(item, seen, Option::None) == Result::Ok::<
                (PathItemV, Seq<Seq<char>>),
                ErrorType,
            >((item, s));
        let delta2 = delta.push((p, item));
        lemma_paths_ids_push(delta, (p, item));
        assert(paths_op_ids(delta2) == dids + iids);
        // Requirements for the tail.
        assert forall|i: int|
            0 <= i < rest.len() implies assoc_get(delta2, (#[trigger] rest[i]).0) is None by {
            assert(rest[i] == in_paths[i + 1]);
            lemma_assoc_get_push_none(delta, (p, item), rest[i].0);
        }
        assert(keys_distinct(rest)) by {
            assert forall|i: int, j: int|
                0 <= i < j < rest.len() implies (#[trigger] rest[i]).0 != (#[trigger] rest[j]).0
            by {
                assert(rest[i] == in_paths[i + 1]);
                assert(rest[j] == in_paths[j + 1]);
            }
        }
        let combined2 = paths_op_ids(delta2) + rids;
        assert(combined2 =~= combined);
        assert forall|x: Seq<char>|
            tag_in(seen_mid, x) <==> (tag_in(seen0, x) || tag_in(paths_op_ids(delta2), x)) by {
            lemma_tag_in_concat(dids, iids, x);
        }
        lemma_merge_paths_identity(delta2, rest, seen_mid, seen0, table);
        assert(delta2 + rest =~= delta + in_paths);
    }
}

/// Merging a single input that asks for no selection, no path
/// modification and no dispute returns its paths and its component maps
/// unchanged. The input is assumed well-formed: every path item carries an
/// operation, and its path keys, component names and operation ids are
/// already distinct.
#[verifier::rlimit(100)]
pub proof fn lemma_single_plain_input_identity(input: SingleMergeInputV, d: DocumentV)
    requires
        input.operation_selection is None,
        input.path_modification is None,
        input.dispute is None,
        input.dispute_prefix is None,
        forall|i: int|
            0 <= i < input.oas.paths.len() ==> item_has_operations(
                (#[trigger] input.oas.paths[i]).1,
            ),
        keys_distinct(input.oas.paths),
        no_dups(paths_op_ids(input.oas.paths)),
        match input.oas.components {
            Option::Some(c) => keys_distinct(c.schemas) && keys_distinct(c.responses)
                && keys_distinct(c.parameters) && keys_distinct(c.examples) && keys_distinct(
                c.request_bodies,
            ) && keys_distinct(c.headers) && keys_distinct(c.links) && keys_distinct(c.callbacks),
            Option::None => true,
        },
        spec_merge(seq![input], Option::None) == Result::Ok::<DocumentV, ErrorType>(d),
    ensures
        d.paths == input.oas.paths,
        d.components matches Some(oc) && {
            let ic = match input.oas.components {
                Option::Some(c) => c,
                Option::None => crate::merge::paths_components::empty_components_v(),
            };
            oc.schemas == ic.schemas && oc.responses == ic.responses && oc.parameters
                == ic.parameters && oc.examples == ic.examples && oc.request_bodies
                == ic.request_bodies && oc.headers == ic.headers && oc.links == ic.links
                && oc.callbacks == ic.callbacks && oc.security_schemes == ic.security_schemes
        },
{
    let ins = seq![input];
    assert(ins[0] == input);
    let acc0 = empty_acc_v();
    let dispute = crate::merge::dispute::spec_get_dispute(input);
    assert(dispute is None);
    let doc0 = crate::merge::operation_selection::spec_run_selection(
        input.oas,
        input.operation_selection,
    );
    assert(doc0 == input.oas);
    lemma_drop_empty_identity(input.oas.paths);
    let doc = crate::merge::paths_components::spec_drop_empty_doc(doc0);
    assert(doc =~~= input.oas);
    assert(doc == input.oas);
    let ic = match doc.components {
        Option::Some(c) => c,
        Option::None => crate::merge::paths_components::empty_components_v(),
    };
    let et = crate::merge::reference_walker::empty_table();

    // The component kinds fold in unchanged, and the table stays empty.
    assert(keys_distinct(ic.schemas) && keys_distinct(ic.responses) && keys_distinct(
        ic.parameters,
    ) && keys_distinct(ic.examples) && keys_distinct(ic.request_bodies) && keys_distinct(
        ic.headers,
    ) && keys_distinct(ic.links) && keys_distinct(ic.callbacks));
    let ed: Seq<(Seq<char>, ComponentV)> = Seq::empty();
    assert forall|k: Seq<char>| assoc_get(ed, k) is None by {}
    lemma_merge_kind_identity(ed, et, "schemas"@, ic.schemas);
    lemma_merge_kind_identity(ed, et, "responses"@, ic.responses);
    lemma_merge_kind_identity(ed, et, "parameters"@, ic.parameters);
    lemma_merge_kind_identity(ed, et, "examples"@, ic.examples);
    lemma_merge_kind_identity(ed, et, "requestBodies"@, ic.request_bodies);
    lemma_merge_kind_identity(ed, et, "headers"@, ic.headers);
    lemma_merge_kind_identity(ed, et, "links"@, ic.links);
    lemma_merge_kind_identity(ed, et, "callbacks"@, ic.callbacks);
    assert(ed + ic.schemas =~= ic.schemas);
    assert(ed + ic.responses =~= ic.responses);
    assert(ed + ic.parameters =~= ic.parameters);
    assert(ed + ic.examples =~= ic.examples);
    assert(ed + ic.request_bodies =~= ic.request_bodies);
    assert(ed + ic.headers =~= ic.headers);
    assert(ed + ic.links =~= ic.links);
    assert(ed + ic.callbacks =~= ic.callbacks);

    match crate::merge::paths_components::spec_merge_all_kinds(acc0.components, ic, dispute, et) {
        Result::Err(_) => {
            assert(false);
        },
        Result::Ok((cd, t)) => {
            assert(cd.schemas == ic.schemas);
            assert(cd.responses == ic.responses);
            assert(cd.parameters == ic.parameters);
            assert(cd.examples == ic.examples);
            assert(cd.request_bodies == ic.request_bodies);
            assert(cd.headers == ic.headers);
            assert(cd.links == ic.links);
            assert(cd.callbacks == ic.callbacks);
            assert(t == et);

            // Paths fold in unchanged.
            let edp: Seq<(Seq<char>, PathItemV)> = Seq::empty();
            assert(paths_op_ids(edp) =~= Seq::<Seq<char>>::empty());
            assert(paths_op_ids(edp) + paths_op_ids(doc.paths) =~= paths_op_ids(doc.paths));
            assert forall|i: int|
                0 <= i < doc.paths.len() implies assoc_get(edp, (#[trigger] doc.paths[i]).0)
                is None by {}
            assert(ids_outside(paths_op_ids(edp) + paths_op_ids(doc.paths), acc0.seen)) by {
                assert forall|i: int|
                    0 <= i < (paths_op_ids(edp) + paths_op_ids(doc.paths)).len() implies !tag_in(
                    acc0.seen,
                    #[trigger] (paths_op_ids(edp) + paths_op_ids(doc.paths))[i],
                ) by {}
            }
            lemma_merge_paths_identity(edp, doc.paths, acc0.seen, acc0.seen, t);
            match spec_merge_paths(
                acc0.paths,
                Seq::empty(),
                doc.paths,
                input.path_modification,
                dispute,
                acc0.seen,
                t,
            ) {
                Result::Err(_) => {
                    assert(false);
                },
                Result::Ok((pd, seen2, t2)) => {
                    assert(pd == edp + doc.paths);
                    assert(pd =~= doc.paths);
                    assert(t2 == et);
                    crate::merge::reference_walker::lemma_walk_path_item_map_empty(pd);
                    crate::merge::reference_walker::lemma_walk_component_map_empty(cd.schemas);
                    crate::merge::reference_walker::lemma_walk_component_map_empty(cd.responses);
                    crate::merge::reference_walker::lemma_walk_component_map_empty(cd.parameters);
                    crate::merge::reference_walker::lemma_walk_component_map_empty(cd.examples);
                    crate::merge::reference_walker::lemma_walk_component_map_empty(
                        cd.request_bodies,
                    );
                    crate::merge::reference_walker::lemma_walk_component_map_empty(cd.headers);
                    crate::merge::reference_walker::lemma_walk_component_map_empty(cd.links);
                    crate::merge::reference_walker::lemma_walk_component_map_empty(cd.callbacks);
                    lemma_fold_in_fresh(ed, ic.schemas);
                    lemma_fold_in_fresh(ed, ic.responses);
                    lemma_fold_in_fresh(ed, ic.parameters);
                    lemma_fold_in_fresh(ed, ic.examples);
                    lemma_fold_in_fresh(ed, ic.request_bodies);
                    lemma_fold_in_fresh(ed, ic.headers);
                    lemma_fold_in_fresh(ed, ic.links);
                    lemma_fold_in_fresh(ed, ic.callbacks);
                    match spec_merge_single_input(acc0, input) {
                        Result::Err(_) => {
                            assert(false);
                        },
                        Result::Ok(acc2) => {
                            assert(acc2.paths =~= doc.paths);
                            assert(acc2.components.schemas =~= ic.schemas);
                            assert(acc2.components.responses =~= ic.responses);
                            assert(acc2.components.parameters =~= ic.parameters);
                            assert(acc2.components.examples =~= ic.examples);
                            assert(acc2.components.request_bodies =~= ic.request_bodies);
                            assert(acc2.components.headers =~= ic.headers);
                            assert(acc2.components.links =~= ic.links);
                            assert(acc2.components.callbacks =~= ic.callbacks);
                            assert(acc2.components.security_schemes =~= ic.security_schemes);
                            let rest = ins.subrange(1, 1);
                            assert(rest =~= Seq::<SingleMergeInputV>::empty());
                            assert(spec_merge_pc_loop(acc2, rest) == Result::Ok::<
                                MergeAccV,
                                ErrorType,
                            >(acc2));
                        },
                    }
                },
            }
        },
    }
}

/// Path strings in a successful merge's output are pairwise distinct.
pub proof fn lemma_merged_paths_distinct(
    ins: Seq<SingleMergeInputV>,
    version: Option<Seq<char>>,
    d: DocumentV,
)
    requires
        spec_merge(ins, version) == Result::Ok::<DocumentV, ErrorType>(d),
    ensures
        keys_distinct(d.paths),
{
    match spec_merge_paths_components(ins) {
        Result::Err(_) => {},
        Result::Ok((paths, components)) => {
            match spec_merge_pc_loop(empty_acc_v(), ins) {
                Result::Err(_) => {},
                Result::Ok(acc) => {
                    assert(keys_distinct(empty_acc_v().paths));
                    lemma_pc_loop_paths_distinct(empty_acc_v(), ins, acc);
                },
            }
        },
    }
}

} // verus!
