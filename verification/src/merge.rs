//! The merge engine: composing many OpenAPI documents into one.

pub mod dispute;
pub mod extensions;
pub mod info;
pub mod operation_selection;
pub mod paths_components;
pub mod reference_walker;
pub mod tags;

use vstd::prelude::*;
use vstd::string::StringExecFns;
use crate::data::ErrorMergeResult;
use crate::data::ErrorType;
use crate::data::MergeInput;
use crate::data::SingleMergeInputV;
use crate::json::Json;
use crate::json::JsonV;
use crate::model::Document;
use crate::model::DocumentV;
use crate::model::TagV;
use crate::canonical::clone_json_vec;
use crate::canonical::json_clone;

verus! {

/// The first input's non-empty server list, or an empty list.
pub open spec fn spec_first_servers(ins: Seq<SingleMergeInputV>) -> Seq<JsonV>
    decreases ins.len(),
{
    if ins.len() == 0 {
        Seq::empty()
    } else if ins[0].oas.servers.len() > 0 {
        ins[0].oas.servers
    } else {
        spec_first_servers(ins.subrange(1, ins.len() as int))
    }
}

/// The first input's defined security list, if any.
pub open spec fn spec_first_security(ins: Seq<SingleMergeInputV>) -> Option<Seq<JsonV>>
    decreases ins.len(),
{
    if ins.len() == 0 {
        Option::None
    } else if ins[0].oas.security is Some {
        ins[0].oas.security
    } else {
        spec_first_security(ins.subrange(1, ins.len() as int))
    }
}

/// The first input's external documentation record, if any.
pub open spec fn spec_first_external_docs(ins: Seq<SingleMergeInputV>) -> Option<JsonV>
    decreases ins.len(),
{
    if ins.len() == 0 {
        Option::None
    } else if ins[0].oas.external_docs is Some {
        ins[0].oas.external_docs
    } else {
        spec_first_external_docs(ins.subrange(1, ins.len() as int))
    }
}

/// What `merge` returns: an error when the input list is empty or when
/// path or component merging fails; otherwise the assembled document,
/// with the version taken from the override or the first input, the
/// merged paths and components, and the combined metadata.
pub open spec fn spec_merge(ins: Seq<SingleMergeInputV>, version: Option<Seq<char>>) -> Result<
    DocumentV,
    ErrorType,
> {
    if ins.len() == 0 {
        Result::Err(ErrorType::NoInputs)
    } else {
        let out_version = match version {
            Option::Some(v) => v,
            Option::None => ins[0].oas.openapi,
        };
        match paths_components::spec_merge_paths_components(ins) {
            Result::Err(e) => Result::Err(e),
            Result::Ok((paths, components)) => Result::Ok(
                DocumentV {
                    openapi: out_version,
                    info: info::spec_merge_infos(ins),
                    servers: spec_first_servers(ins),
                    paths: paths,
                    components: Option::Some(components),
                    security: spec_first_security(ins),
                    tags: match tags::spec_merge_tags(ins) {
                        Option::Some(t) => t,
                        Option::None => Seq::empty(),
                    },
                    external_docs: spec_first_external_docs(ins),
                    extensions: extensions::spec_merge_extensions(ins),
                },
            ),
        }
    }
}

#[verifier::loop_isolation(false)]
fn first_servers(inputs: &MergeInput) -> (r: Vec<Json>)
    ensures
        r.deep_view() == spec_first_servers(inputs.deep_view()),
{
    let ghost insv = inputs.deep_view();
    proof {
        assert(insv.subrange(0, insv.len() as int) =~= insv);
    }
    let mut i: usize = 0;
    while i < inputs.len()
        invariant
            0 <= i <= inputs@.len(),
            insv.len() == inputs@.len(),
            spec_first_servers(insv) == spec_first_servers(
                insv.subrange(i as int, insv.len() as int),
            ),
        decreases inputs@.len() - i,
    {
        proof {
            assert(insv[i as int] == inputs@[i as int].deep_view());
            let remaining = insv.subrange(i as int, insv.len() as int);
            assert(remaining[0] == insv[i as int]);
            assert(remaining.subrange(1, remaining.len() as int) =~= insv.subrange(
                i as int + 1,
                insv.len() as int,
            ));
        }
        if inputs[i].oas.servers.len() > 0 {
            return clone_json_vec(&inputs[i].oas.servers);
        }
        i = i + 1;
    }
    proof {
        assert(insv.subrange(insv.len() as int, insv.len() as int) =~= Seq::<
            SingleMergeInputV,
        >::empty());
    }
    let r: Vec<Json> = Vec::new();
    proof {
        assert(r.deep_view() =~= Seq::<JsonV>::empty());
    }
    r
}

#[verifier::loop_isolation(false)]
fn first_security(inputs: &MergeInput) -> (r: Option<Vec<Json>>)
    ensures
        match r {
            Option::Some(s) => spec_first_security(inputs.deep_view()) == Option::Some(
                s.deep_view(),
            ),
            Option::None => spec_first_security(inputs.deep_view()) is None,
        },
{
    let ghost insv = inputs.deep_view();
    proof {
        assert(insv.subrange(0, insv.len() as int) =~= insv);
    }
    let mut i: usize = 0;
    while i < inputs.len()
        invariant
            0 <= i <= inputs@.len(),
            insv.len() == inputs@.len(),
            spec_first_security(insv) == spec_first_security(
                insv.subrange(i as int, insv.len() as int),
            ),
        decreases inputs@.len() - i,
    {
        proof {
            assert(insv[i as int] == inputs@[i as int].deep_view());
            let remaining = insv.subrange(i as int, insv.len() as int);
            assert(remaining[0] == insv[i as int]);
            assert(remaining.subrange(1, remaining.len() as int) =~= insv.subrange(
                i as int + 1,
                insv.len() as int,
            ));
        }
        match &inputs[i].oas.security {
            Option::Some(s) => {
                return Option::Some(clone_json_vec(s));
            },
            Option::None => {},
        }
        i = i + 1;
    }
    proof {
        assert(insv.subrange(insv.len() as int, insv.len() as int) =~= Seq::<
            SingleMergeInputV,
        >::empty());
    }
    Option::None
}

#[verifier::loop_isolation(false)]
fn first_external_docs(inputs: &MergeInput) -> (r: Option<Json>)
    ensures
        match r {
            Option::Some(e) => spec_first_external_docs(inputs.deep_view()) == Option::Some(e@),
            Option::None => spec_first_external_docs(inputs.deep_view()) is None,
        },
{
    let ghost insv = inputs.deep_view();
    proof {
        assert(insv.subrange(0, insv.len() as int) =~= insv);
    }
    let mut i: usize = 0;
    while i < inputs.len()
        invariant
            0 <= i <= inputs@.len(),
            insv.len() == inputs@.len(),
            spec_first_external_docs(insv) == spec_first_external_docs(
                insv.subrange(i as int, insv.len() as int),
            ),
        decreases inputs@.len() - i,
    {
        proof {
            assert(insv[i as int] == inputs@[i as int].deep_view());
            let remaining = insv.subrange(i as int, insv.len() as int);
            assert(remaining[0] == insv[i as int]);
            assert(remaining.subrange(1, remaining.len() as int) =~= insv.subrange(
                i as int + 1,
                insv.len() as int,
            ));
        }
        match &inputs[i].oas.external_docs {
            Option::Some(e) => {
                return Option::Some(json_clone(e));
            },
            Option::None => {},
        }
        i = i + 1;
    }
    proof {
        assert(insv.subrange(insv.len() as int, insv.len() as int) =~= Seq::<
            SingleMergeInputV,
        >::empty());
    }
    Option::None
}

/// Merge the annotated input documents into one document, following
/// [`spec_merge`]. With an empty input list the merge fails with
/// `NoInputs`; a duplicate path, an unresolvable component name or an
/// unresolvable operation id fail with their own error kinds; on every
/// other input the merge succeeds.
pub fn merge(inputs: &MergeInput, openapi_version: Option<&str>) -> (r: Result<
    Document,
    ErrorMergeResult,
>)
    ensures
        match r {
            Result::Ok(d) => spec_merge(inputs.deep_view(), openapi_version.deep_view())
                == Result::Ok::<DocumentV, ErrorType>(d.deep_view()),
            Result::Err(e) => spec_merge(inputs.deep_view(), openapi_version.deep_view())
                == Result::Err::<DocumentV, ErrorType>(e.error_type),
        },
{
    if inputs.len() == 0 {
        return Result::Err(
            ErrorMergeResult {
                error_type: ErrorType::NoInputs,
                message: "You must provide at least one OAS file as an input.".to_owned(),
            },
        );
    }

    let version: String = match openapi_version {
        Option::Some(v) => v.to_owned(),
        Option::None => inputs[0].oas.openapi.clone(),
    };

    let (paths, components) = match paths_components::merge_paths_and_components(inputs) {
        Result::Ok(pc) => pc,
        Result::Err(e) => {
            return Result::Err(e);
        },
    };

    let merged_info = info::merge_infos(inputs);
    let merged_tags = match tags::merge_tags(inputs) {
        Option::Some(t) => t,
        Option::None => Vec::new(),
    };
    proof {
        assert(merged_tags.deep_view() =~= (match tags::spec_merge_tags(inputs.deep_view()) {
            Option::Some(t) => t,
            Option::None => Seq::<TagV>::empty(),
        }));
    }
    let servers = first_servers(inputs);
    let security = first_security(inputs);
    let external_docs = first_external_docs(inputs);
    let extensions = merge_extensions_from_empty(inputs);

    Result::Ok(
        Document {
            openapi: version,
            info: merged_info,
            servers,
            paths,
            components: Option::Some(components),
            security,
            tags: merged_tags,
            external_docs,
            extensions,
        },
    )
}

fn merge_extensions_from_empty(inputs: &MergeInput) -> (r: Vec<(String, Json)>)
    ensures
        r.deep_view() == extensions::spec_merge_extensions(inputs.deep_view()),
{
    let acc: Vec<(String, Json)> = Vec::new();
    proof {
        assert(acc.deep_view() =~= Seq::<(Seq<char>, JsonV)>::empty());
    }
    extensions::merge_extensions(acc, inputs)
}

} // verus!
