//! Merging the tag lists of all inputs: concatenated in input order,
//! dropping tags the same input's selection excludes, de-duplicated by
//! name with the first occurrence winning.

use vstd::prelude::*;
use crate::data::MergeInput;
use crate::data::SingleMergeInputV;
use crate::model::Tag;
use crate::model::TagV;
use crate::canonical::json_clone;
use crate::merge::operation_selection::tag_in;
use crate::merge::operation_selection::str_vec_contains;

verus! {

/// The tag names an input's selection excludes.
pub open spec fn input_exclude_tags(input: SingleMergeInputV) -> Seq<Seq<char>> {
    match input.operation_selection {
        Option::Some(sel) => match sel.exclude_tags {
            Option::Some(e) => e,
            Option::None => Seq::empty(),
        },
        Option::None => Seq::empty(),
    }
}

/// One input's tags folded into the result: a tag joins unless its name
/// is excluded by this input or already present.
pub open spec fn spec_add_tags(
    result: Seq<TagV>,
    names: Seq<Seq<char>>,
    tags: Seq<TagV>,
    exclude: Seq<Seq<char>>,
) -> (Seq<TagV>, Seq<Seq<char>>)
    decreases tags.len(),
{
    if tags.len() == 0 {
        (result, names)
    } else {
        let t = tags[0];
        let keep = !tag_in(exclude, t.name) && !tag_in(names, t.name);
        let result2 = if keep {
            result.push(t)
        } else {
            result
        };
        let names2 = if keep {
            names.push(t.name)
        } else {
            names
        };
        spec_add_tags(result2, names2, tags.subrange(1, tags.len() as int), exclude)
    }
}

pub open spec fn spec_merge_tags_loop(
    result: Seq<TagV>,
    names: Seq<Seq<char>>,
    ins: Seq<SingleMergeInputV>,
) -> (Seq<TagV>, Seq<Seq<char>>)
    decreases ins.len(),
{
    if ins.len() == 0 {
        (result, names)
    } else {
        let (r2, n2) = spec_add_tags(result, names, ins[0].oas.tags, input_exclude_tags(ins[0]));
        spec_merge_tags_loop(r2, n2, ins.subrange(1, ins.len() as int))
    }
}

/// The merged tag list, or nothing when it comes out empty.
pub open spec fn spec_merge_tags(ins: Seq<SingleMergeInputV>) -> Option<Seq<TagV>> {
    let (r, _) = spec_merge_tags_loop(Seq::empty(), Seq::empty(), ins);
    if r.len() == 0 {
        Option::None
    } else {
        Option::Some(r)
    }
}

/// Merge the tag lists of all inputs, following [`spec_merge_tags`].
#[verifier::loop_isolation(false)]
pub fn merge_tags(inputs: &MergeInput) -> (r: Option<Vec<Tag>>)
    ensures
        match r {
            Option::Some(tags) => spec_merge_tags(inputs.deep_view()) == Option::Some(
                tags.deep_view(),
            ),
            Option::None => spec_merge_tags(inputs.deep_view()) is None,
        },
{
    let ghost insv = inputs.deep_view();
    let mut result: Vec<Tag> = Vec::new();
    let mut names: Vec<String> = Vec::new();
    let mut i: usize = 0;
    proof {
        assert(result.deep_view() =~= Seq::<TagV>::empty());
        assert(names.deep_view() =~= Seq::<Seq<char>>::empty());
        assert(insv.subrange(0, insv.len() as int) =~= insv);
    }
    while i < inputs.len()
        invariant
            0 <= i <= inputs@.len(),
            insv.len() == inputs@.len(),
            spec_merge_tags_loop(Seq::empty(), Seq::empty(), insv) == spec_merge_tags_loop(
                result.deep_view(),
                names.deep_view(),
                insv.subrange(i as int, insv.len() as int),
            ),
        decreases inputs@.len() - i,
    {
        proof {
            assert(insv[i as int] == inputs@[i as int].deep_view());
            let remaining = insv.subrange(i as int, insv.len() as int);
            assert(remaining[0] == insv[i as int]);
            assert(remaining.subrange(1, remaining.len() as int) =~= insv.subrange(
                i as int + 1,
                insv.len() as int,
            ));
        }
        let input = &inputs[i];
        let empty_excludes: Vec<String> = Vec::new();
        let excludes: &Vec<String> = match &input.operation_selection {
            Option::Some(sel) => match &sel.exclude_tags {
                Option::Some(e) => e,
                Option::None => &empty_excludes,
            },
            Option::None => &empty_excludes,
        };
        proof {
            assert(excludes.deep_view() =~= input_exclude_tags(insv[i as int]));
        }
        let ghost tagsv = input.oas.tags.deep_view();
        let ghost exclv = excludes.deep_view();
        let mut j: usize = 0;
        proof {
            assert(tagsv.subrange(0, tagsv.len() as int) =~= tagsv);
            assert(insv[i as int].oas.tags == tagsv);
        }
        while j < input.oas.tags.len()
            invariant
                0 <= j <= input.oas.tags@.len(),
                tagsv.len() == input.oas.tags@.len(),
                tagsv == input.oas.tags.deep_view(),
                exclv == excludes.deep_view(),
                spec_merge_tags_loop(Seq::empty(), Seq::empty(), insv) == ({
                    let p = spec_add_tags(
                        result.deep_view(),
                        names.deep_view(),
                        tagsv.subrange(j as int, tagsv.len() as int),
                        exclv,
                    );
                    spec_merge_tags_loop(p.0, p.1, insv.subrange(i as int + 1, insv.len() as int))
                }),
            decreases input.oas.tags@.len() - j,
        {
            proof {
                let remaining = tagsv.subrange(j as int, tagsv.len() as int);
                assert(remaining[0] == tagsv[j as int]);
                assert(remaining.subrange(1, remaining.len() as int) =~= tagsv.subrange(
                    j as int + 1,
                    tagsv.len() as int,
                ));
                assert(tagsv[j as int] == input.oas.tags@[j as int].deep_view());
            }
            let tag = &input.oas.tags[j];
            let keep = !str_vec_contains(excludes, &tag.name) && !str_vec_contains(
                &names,
                &tag.name,
            );
            let ghost result_pre = result.deep_view();
            let ghost names_pre = names.deep_view();
            if keep {
                result.push(Tag { name: tag.name.clone(), extra: json_clone(&tag.extra) });
                names.push(tag.name.clone());
                proof {
                    assert(result.deep_view() =~= result_pre.push(tagsv[j as int]));
                    assert(names.deep_view() =~= names_pre.push(tagsv[j as int].name));
                }
            }
            j = j + 1;
        }
        proof {
            assert(tagsv.subrange(tagsv.len() as int, tagsv.len() as int) =~= Seq::<
                TagV,
            >::empty());
        }
        i = i + 1;
    }
    proof {
        assert(insv.subrange(insv.len() as int, insv.len() as int) =~= Seq::<
            SingleMergeInputV,
        >::empty());
    }
    if result.len() == 0 {
        Option::None
    } else {
        Option::Some(result)
    }
}

} // verus!
