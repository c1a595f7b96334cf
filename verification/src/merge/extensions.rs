//! Merging the top-level `x-*` extension fields of all inputs: the union
//! in input order, the first occurrence of a key winning.

use vstd::prelude::*;
use crate::data::MergeInput;
use crate::data::SingleMergeInputV;
use crate::json::Json;
use crate::json::JsonV;
use crate::canonical::json_clone;
use crate::merge::paths_components::assoc_get;

verus! {

/// One input's extension entries folded in: an entry joins unless its key
/// is already present.
pub open spec fn spec_add_extensions(
    acc: Seq<(Seq<char>, JsonV)>,
    entries: Seq<(Seq<char>, JsonV)>,
) -> Seq<(Seq<char>, JsonV)>
    decreases entries.len(),
{
    if entries.len() == 0 {
        acc
    } else {
        let acc2 = if assoc_get(acc, entries[0].0) is None {
            acc.push(entries[0])
        } else {
            acc
        };
        spec_add_extensions(acc2, entries.subrange(1, entries.len() as int))
    }
}

pub open spec fn spec_merge_extensions_loop(
    acc: Seq<(Seq<char>, JsonV)>,
    ins: Seq<SingleMergeInputV>,
) -> Seq<(Seq<char>, JsonV)>
    decreases ins.len(),
{
    if ins.len() == 0 {
        acc
    } else {
        spec_merge_extensions_loop(
            spec_add_extensions(acc, ins[0].oas.extensions),
            ins.subrange(1, ins.len() as int),
        )
    }
}

/// The union of all inputs' extension fields, first occurrence winning.
pub open spec fn spec_merge_extensions(ins: Seq<SingleMergeInputV>) -> Seq<(Seq<char>, JsonV)> {
    spec_merge_extensions_loop(Seq::empty(), ins)
}

#[verifier::loop_isolation(false)]
fn extensions_has(m: &Vec<(String, Json)>, key: &String) -> (r: bool)
    ensures
        r == (assoc_get(m.deep_view(), key@) is Some),
{
    let ghost all = m.deep_view();
    proof {
        assert(all.subrange(0, all.len() as int) =~= all);
    }
    let mut i: usize = 0;
    while i < m.len()
        invariant
            0 <= i <= m@.len(),
            all.len() == m@.len(),
            assoc_get(all, key@) == assoc_get(all.subrange(i as int, all.len() as int), key@),
        decreases m@.len() - i,
    {
        proof {
            let tail = all.subrange(i as int, all.len() as int);
            assert(tail[0] == all[i as int]);
            assert(tail.subrange(1, tail.len() as int) =~= all.subrange(
                i as int + 1,
                all.len() as int,
            ));
        }
        if m[i].0 == *key {
            return true;
        }
        i = i + 1;
    }
    proof {
        assert(all.subrange(all.len() as int, all.len() as int) =~= Seq::<(
            Seq<char>,
            JsonV,
        )>::empty());
    }
    false
}

/// The union of all inputs' top-level extension fields, following
/// [`spec_merge_extensions`]; an entry already present in `acc` wins over
/// any later one.
#[verifier::loop_isolation(false)]
pub fn merge_extensions(acc: Vec<(String, Json)>, inputs: &MergeInput) -> (r: Vec<(String, Json)>)
    ensures
        r.deep_view() == spec_merge_extensions_loop(acc.deep_view(), inputs.deep_view()),
{
    let ghost insv = inputs.deep_view();
    let mut out = acc;
    let mut i: usize = 0;
    proof {
        assert(insv.subrange(0, insv.len() as int) =~= insv);
    }
    while i < inputs.len()
        invariant
            0 <= i <= inputs@.len(),
            insv.len() == inputs@.len(),
            spec_merge_extensions_loop(out.deep_view(), insv.subrange(i as int, insv.len() as int))
                == spec_merge_extensions_loop(acc.deep_view(), insv),
        decreases inputs@.len() - i,
    {
        proof {
            assert(insv[i as int] == inputs@[i as int].deep_view());
            let remaining = insv.subrange(i as int, insv.len() as int);
            assert(remaining[0] == insv[i as int]);
            assert(remaining.subrange(1, remaining.len() as int) =~= insv.subrange(
                i as int + 1,
                insv.len() as int,
            ));
        }
        let input = &inputs[i];
        let ghost entsv = input.oas.extensions.deep_view();
        proof {
            assert(insv[i as int].oas.extensions == entsv);
            assert(entsv.subrange(0, entsv.len() as int) =~= entsv);
        }
        let mut j: usize = 0;
        while j < input.oas.extensions.len()
            invariant
                0 <= j <= input.oas.extensions@.len(),
                entsv.len() == input.oas.extensions@.len(),
                entsv == input.oas.extensions.deep_view(),
                spec_merge_extensions_loop(
                    spec_add_extensions(
                        out.deep_view(),
                        entsv.subrange(j as int, entsv.len() as int),
                    ),
                    insv.subrange(i as int + 1, insv.len() as int),
                ) == spec_merge_extensions_loop(acc.deep_view(), insv),
            decreases input.oas.extensions@.len() - j,
        {
            proof {
                let remaining = entsv.subrange(j as int, entsv.len() as int);
                assert(remaining[0] == entsv[j as int]);
                assert(remaining.subrange(1, remaining.len() as int) =~= entsv.subrange(
                    j as int + 1,
                    entsv.len() as int,
                ));
                assert(entsv[j as int] == (
                    input.oas.extensions@[j as int].0@,
                    input.oas.extensions@[j as int].1@,
                ));
            }
            let entry = &input.oas.extensions[j];
            let ghost out_pre = out.deep_view();
            if !extensions_has(&out, &entry.0) {
                out.push((entry.0.clone(), json_clone(&entry.1)));
                proof {
                    assert(out.deep_view() =~= out_pre.push(entsv[j as int]));
                }
            }
            j = j + 1;
        }
        proof {
            assert(entsv.subrange(entsv.len() as int, entsv.len() as int) =~= Seq::<(
                Seq<char>,
                JsonV,
            )>::empty());
        }
        i = i + 1;
    }
    proof {
        assert(insv.subrange(insv.len() as int, insv.len() as int) =~= Seq::<
            SingleMergeInputV,
        >::empty());
    }
    out
}

} // verus!
