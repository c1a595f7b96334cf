//! Merging the `info` records of all inputs.
//!
//! The output starts from the first input's info. Each input whose
//! description behaviour says `append` contributes its right-trimmed
//! `info.description`, under a Markdown heading when a title is
//! configured; the contributions, joined by blank lines, replace the
//! description.

use vstd::prelude::*;
use vstd::string::StrSliceExecFns;
use vstd::string::StringExecFns;
use crate::data::MergeInput;
use crate::data::SingleMergeInput;
use crate::data::SingleMergeInputV;
use crate::model::Info;
use crate::model::InfoV;
use crate::json::Json;
use crate::json::JsonV;
use crate::canonical::clone_info;
use crate::text::spec_trim_end;
use crate::text::str_trim_end;

verus! {

/// A Markdown heading marker of the given level.
pub open spec fn spec_heading(level: int) -> Seq<char> {
    Seq::new(level as nat, |i: int| '#')
}

/// The description one input contributes: its right-trimmed description,
/// under a heading when a title is configured.
pub open spec fn spec_description_with_heading(input: SingleMergeInputV) -> Option<Seq<char>> {
    match input.oas.info.description {
        Option::None => Option::None,
        Option::Some(desc) => {
            let trimmed = spec_trim_end(desc);
            match input.description {
                Option::Some(cfg) => match cfg.title {
                    Option::Some(title) => {
                        let level = match title.heading_level {
                            Option::Some(l) => l as int,
                            Option::None => 1,
                        };
                        Option::Some(
                            spec_heading(level) + " "@ + title.value + "\n\n"@ + trimmed,
                        )
                    },
                    Option::None => Option::Some(trimmed),
                },
                Option::None => Option::Some(trimmed),
            }
        },
    }
}

/// Whether an input asks for its description to be appended.
pub open spec fn wants_append(input: SingleMergeInputV) -> bool {
    match input.description {
        Option::Some(cfg) => cfg.append,
        Option::None => false,
    }
}

/// The descriptions all appending inputs contribute, in input order.
pub open spec fn spec_collect_descriptions(ins: Seq<SingleMergeInputV>) -> Seq<Seq<char>>
    decreases ins.len(),
{
    if ins.len() == 0 {
        Seq::empty()
    } else {
        let rest = spec_collect_descriptions(ins.subrange(0, ins.len() - 1));
        let last = ins[ins.len() - 1];
        if wants_append(last) {
            match spec_description_with_heading(last) {
                Option::Some(d) => rest.push(d),
                Option::None => rest,
            }
        } else {
            rest
        }
    }
}

/// The parts joined by blank lines.
pub open spec fn spec_join_blank(parts: Seq<Seq<char>>) -> Seq<char>
    decreases parts.len(),
{
    if parts.len() == 0 {
        Seq::empty()
    } else if parts.len() == 1 {
        parts[0]
    } else {
        spec_join_blank(parts.subrange(0, parts.len() - 1)) + "\n\n"@ + parts[parts.len() - 1]
    }
}

/// The merged info record: the first input's, with the description
/// replaced by the joined contributions when there are any. With no
/// inputs, a placeholder record.
pub open spec fn spec_merge_infos(ins: Seq<SingleMergeInputV>) -> InfoV {
    if ins.len() == 0 {
        InfoV {
            title: "Merged API"@,
            version: "1.0.0"@,
            description: Option::None,
            extra: JsonV::Null,
        }
    } else {
        let base = ins[0].oas.info;
        let descs = spec_collect_descriptions(ins);
        if descs.len() > 0 {
            InfoV { description: Option::Some(spec_join_blank(descs)), ..base }
        } else {
            base
        }
    }
}

fn heading_string(level: u8) -> (r: String)
    ensures
        r@ == spec_heading(level as int),
{
    let mut s = String::new();
    let mut i: u8 = 0;
    proof {
        reveal_strlit("#");
        assert(s@ =~= Seq::new(0, |k: int| '#'));
    }
    #[verifier::loop_isolation(false)]
    while i < level
        invariant
            0 <= i <= level,
            s@ == Seq::new(i as nat, |k: int| '#'),
        decreases level - i,
    {
        s.append("#");
        proof {
            assert(s@ =~= Seq::new(i as nat + 1, |k: int| '#'));
        }
        i = i + 1;
    }
    s
}

fn description_with_heading(input: &SingleMergeInput) -> (r: Option<String>)
    ensures
        match r {
            Option::Some(s) => spec_description_with_heading(input.deep_view()) == Option::Some(
                s@,
            ),
            Option::None => spec_description_with_heading(input.deep_view()) is None,
        },
{
    let desc = match &input.oas.info.description {
        Option::Some(d) => d,
        Option::None => {
            return Option::None;
        },
    };
    let trimmed = str_trim_end(desc.as_str());
    match &input.description {
        Option::Some(cfg) => match &cfg.title {
            Option::Some(title) => {
                let level: u8 = match title.heading_level {
                    Option::Some(l) => l,
                    Option::None => 1,
                };
                let mut s = heading_string(level);
                s.append(" ");
                s.append(title.value.as_str());
                s.append("\n\n");
                s.append(trimmed.as_str());
                Option::Some(s)
            },
            Option::None => Option::Some(trimmed),
        },
        Option::None => Option::Some(trimmed),
    }
}

fn wants_append_exec(input: &SingleMergeInput) -> (r: bool)
    ensures
        r == wants_append(input.deep_view()),
{
    match &input.description {
        Option::Some(cfg) => cfg.append,
        Option::None => false,
    }
}

/// Merge the info records of all inputs, following [`spec_merge_infos`].
#[verifier::loop_isolation(false)]
pub fn merge_infos(inputs: &MergeInput) -> (r: Info)
    ensures
        r.deep_view() == spec_merge_infos(inputs.deep_view()),
{
    let ghost insv = inputs.deep_view();
    if inputs.len() == 0 {
        let r = Info {
            title: "Merged API".to_owned(),
            version: "1.0.0".to_owned(),
            description: Option::None,
            extra: Json::Null,
        };
        return r;
    }
    let mut descriptions: Vec<String> = Vec::new();
    let mut i: usize = 0;
    proof {
        assert(insv.subrange(0, 0) =~= Seq::<SingleMergeInputV>::empty());
        assert(descriptions.deep_view() =~= spec_collect_descriptions(insv.subrange(0, 0)));
    }
    while i < inputs.len()
        invariant
            0 <= i <= inputs@.len(),
            insv.len() == inputs@.len(),
            descriptions.deep_view() == spec_collect_descriptions(insv.subrange(0, i as int)),
        decreases inputs@.len() - i,
    {
        let ghost pre = descriptions.deep_view();
        if wants_append_exec(&inputs[i]) {
            match description_with_heading(&inputs[i]) {
                Option::Some(d) => {
                    descriptions.push(d);
                },
                Option::None => {},
            }
        }
        proof {
            assert(insv[i as int] == inputs@[i as int].deep_view());
            let post = insv.subrange(0, i as int + 1);
            assert(post.subrange(0, post.len() - 1) =~= insv.subrange(0, i as int));
            assert(post[post.len() - 1] == insv[i as int]);
            if descriptions@.len() > pre.len() {
                assert(descriptions.deep_view() =~= pre.push(
                    descriptions@[descriptions@.len() - 1]@,
                ));
            }
        }
        i = i + 1;
    }
    proof {
        assert(insv.subrange(0, insv.len() as int) =~= insv);
    }
    let mut final_info = clone_info(&inputs[0].oas.info);
    if descriptions.len() > 0 {
        let joined = join_blank(&descriptions);
        final_info = Info {
            title: final_info.title,
            version: final_info.version,
            description: Option::Some(joined),
            extra: final_info.extra,
        };
    }
    final_info
}

/// The strings joined by blank lines, following [`spec_join_blank`].
#[verifier::loop_isolation(false)]
fn join_blank(parts: &Vec<String>) -> (r: String)
    requires
        parts@.len() > 0,
    ensures
        r@ == spec_join_blank(parts.deep_view()),
{
    let ghost full = parts.deep_view();
    let mut s = parts[0].clone();
    let mut i: usize = 1;
    proof {
        assert(full.subrange(0, 1) =~= seq![full[0]]);
        assert(s@ == spec_join_blank(full.subrange(0, 1)));
    }
    while i < parts.len()
        invariant
            1 <= i <= parts@.len(),
            full.len() == parts@.len(),
            s@ == spec_join_blank(full.subrange(0, i as int)),
        decreases parts@.len() - i,
    {
        s.append("\n\n");
        s.append(parts[i].as_str());
        proof {
            let post = full.subrange(0, i as int + 1);
            assert(post.subrange(0, post.len() - 1) =~= full.subrange(0, i as int));
            assert(post[post.len() - 1] == full[i as int]);
        }
        i = i + 1;
    }
    proof {
        assert(full.subrange(0, full.len() as int) =~= full);
    }
    s
}

} // verus!
