//! Dispute resolution: the prefix/suffix rename rule applied to names.

use vstd::prelude::*;
use vstd::string::StringExecFns;
use crate::data::Dispute;
use crate::data::DisputeV;
use crate::data::DisputePrefix;
use crate::data::SingleMergeInput;

verus! {

/// Why a name is being renamed: a genuine collision (`Disputed`), or the
/// unconditional (`always_apply`) pass over every name (`Undisputed`).
#[derive(Debug, Clone, Copy, PartialEq, Eq, Structural)]
pub enum DisputeStatus {
    Disputed,
    Undisputed,
}

/// The name `apply_dispute` returns: unchanged when no rule applies,
/// otherwise the rule's prefix or suffix attached.
pub open spec fn spec_apply_dispute(
    dispute: Option<DisputeV>,
    name: Seq<char>,
    status: DisputeStatus,
) -> Seq<char> {
    match dispute {
        Option::None => name,
        Option::Some(d) => {
            let should_apply = match status {
                DisputeStatus::Disputed => true,
                DisputeStatus::Undisputed => match d {
                    DisputeV::Prefix { always_apply, .. } => always_apply == Option::Some(true),
                    DisputeV::Suffix { always_apply, .. } => always_apply == Option::Some(true),
                },
            };
            if !should_apply {
                name
            } else {
                match d {
                    DisputeV::Prefix { prefix, .. } => prefix + name,
                    DisputeV::Suffix { suffix, .. } => name + suffix,
                }
            }
        },
    }
}

/// Apply a dispute rule to a name, following [`spec_apply_dispute`].
pub fn apply_dispute(dispute: Option<&Dispute>, input: &str, status: DisputeStatus) -> (r: String)
    ensures
        r@ == spec_apply_dispute(dispute.deep_view(), input@, status),
{
    let d = match dispute {
        Option::Some(d) => d,
        Option::None => {
            return input.to_owned();
        },
    };

    let should_apply = match status {
        DisputeStatus::Disputed => true,
        DisputeStatus::Undisputed => match d {
            Dispute::Prefix(p) => match p.always_apply {
                Option::Some(b) => b,
                Option::None => false,
            },
            Dispute::Suffix(s) => match s.always_apply {
                Option::Some(b) => b,
                Option::None => false,
            },
        },
    };

    if !should_apply {
        return input.to_owned();
    }

    match d {
        Dispute::Prefix(p) => {
            let mut r = p.prefix.clone();
            r.append(input);
            r
        },
        Dispute::Suffix(s) => {
            let mut r = input.to_owned();
            r.append(s.suffix.as_str());
            r
        },
    }
}

/// A name the dispute is not set to always rename is kept unchanged while
/// it is undisputed.
pub proof fn lemma_undisputed_name_unchanged(dispute: Option<DisputeV>, name: Seq<char>)
    requires
        match dispute {
            Option::None => true,
            Option::Some(d) => match d {
                DisputeV::Prefix { always_apply, .. } => always_apply != Option::Some(true),
                DisputeV::Suffix { always_apply, .. } => always_apply != Option::Some(true),
            },
        },
    ensures
        spec_apply_dispute(dispute, name, DisputeStatus::Undisputed) == name,
{
}

/// The dispute rule of an input: the deprecated bare prefix lowered to a
/// prefix rule that is not always applied, else the input's own rule.
pub fn get_dispute(input: &SingleMergeInput) -> (r: Option<Dispute>)
    ensures
        r.deep_view() == spec_get_dispute(input.deep_view()),
{
    if let Option::Some(prefix) = &input.dispute_prefix {
        return Option::Some(
            Dispute::Prefix(DisputePrefix { prefix: prefix.clone(), always_apply: Option::None }),
        );
    }
    match &input.dispute {
        Option::Some(Dispute::Prefix(p)) => Option::Some(
            Dispute::Prefix(DisputePrefix { prefix: p.prefix.clone(), always_apply: p.always_apply }),
        ),
        Option::Some(Dispute::Suffix(s)) => Option::Some(
            Dispute::Suffix(
                crate::data::DisputeSuffix { suffix: s.suffix.clone(), always_apply: s.always_apply },
            ),
        ),
        Option::None => Option::None,
    }
}

/// What [`get_dispute`] returns.
pub open spec fn spec_get_dispute(input: crate::data::SingleMergeInputV) -> Option<DisputeV> {
    match input.dispute_prefix {
        Option::Some(p) => Option::Some(
            DisputeV::Prefix { prefix: p, always_apply: Option::None },
        ),
        Option::None => input.dispute,
    }
}

} // verus!
