//! Configuration and result types for the merge engine.

use vstd::prelude::*;
use crate::model::Document;
use crate::model::DocumentV;
use crate::model::view_document;

verus! {

/// Which operations to take from an input, by tag.
#[derive(Debug, PartialEq)]
pub struct OperationSelection {
    /// Only operations that carry one of these tags are taken. If an
    /// operation carries both an include and an exclude tag, exclusion
    /// wins.
    pub include_tags: Option<Vec<String>>,
    /// Operations that carry one of these tags are dropped.
    pub exclude_tags: Option<Vec<String>>,
}

/// How an input's path strings are rewritten.
#[derive(Debug, PartialEq)]
pub struct PathModification {
    /// A leading fragment to strip first, when present.
    pub strip_start: Option<String>,
    /// A fragment to prepend afterwards.
    pub prepend: Option<String>,
}

/// How an input's `info.description` joins the merged description.
#[derive(Debug, PartialEq)]
pub struct DescriptionMergeBehaviour {
    pub append: bool,
    pub title: Option<DescriptionTitle>,
}

/// An optional Markdown heading above an appended description.
#[derive(Debug, PartialEq)]
pub struct DescriptionTitle {
    pub value: String,
    /// Heading level 1 through 6; 1 when absent.
    pub heading_level: Option<u8>,
}

/// The rename rule applied to names in dispute.
#[derive(Debug, PartialEq)]
pub enum Dispute {
    Prefix(DisputePrefix),
    Suffix(DisputeSuffix),
}

/// Rename by prefixing.
#[derive(Debug, PartialEq)]
pub struct DisputePrefix {
    pub prefix: String,
    /// When true the prefix is applied to every name of the input, not
    /// only to names in dispute.
    pub always_apply: Option<bool>,
}

/// Rename by suffixing.
#[derive(Debug, PartialEq)]
pub struct DisputeSuffix {
    pub suffix: String,
    /// When true the suffix is applied to every name of the input, not
    /// only to names in dispute.
    pub always_apply: Option<bool>,
}

/// One annotated input document.
#[derive(Debug, PartialEq)]
pub struct SingleMergeInput {
    pub oas: Document,
    pub path_modification: Option<PathModification>,
    pub operation_selection: Option<OperationSelection>,
    pub description: Option<DescriptionMergeBehaviour>,
    pub dispute: Option<Dispute>,
    /// Deprecated: a bare prefix, lowered to a prefix dispute that is not
    /// always applied.
    pub dispute_prefix: Option<String>,
}

/// The ordered list of inputs to one merge call.
pub type MergeInput = Vec<SingleMergeInput>;

/// Why a merge failed.
#[derive(Debug, Clone, Copy, PartialEq, Eq, Structural)]
pub enum ErrorType {
    NoInputs,
    DuplicatePaths,
    ComponentDefinitionConflict,
    OperationIdConflict,
}

/// A failed merge: its kind and a message naming the offending entity.
#[derive(Debug, PartialEq)]
pub struct ErrorMergeResult {
    pub error_type: ErrorType,
    pub message: String,
}

/// A successful merge.
#[derive(Debug, PartialEq)]
pub struct SuccessfulMergeResult {
    pub output: Document,
}

/// The outcome of a merge call.
#[derive(Debug, PartialEq)]
pub enum MergeResult {
    Success(SuccessfulMergeResult),
    Error(ErrorMergeResult),
}

impl MergeResult {
    pub fn is_error(&self) -> (r: bool)
        ensures
            r == (*self is Error),
    {
        match self {
            MergeResult::Error(_) => true,
            MergeResult::Success(_) => false,
        }
    }
}

// ------------------------------------------------------------------
// Mirrors of the configuration records.
// ------------------------------------------------------------------

#[verifier::ext_equal]
pub struct OperationSelectionV {
    pub include_tags: Option<Seq<Seq<char>>>,
    pub exclude_tags: Option<Seq<Seq<char>>>,
}

#[verifier::ext_equal]
pub struct PathModificationV {
    pub strip_start: Option<Seq<char>>,
    pub prepend: Option<Seq<char>>,
}

#[verifier::ext_equal]
pub struct DescriptionTitleV {
    pub value: Seq<char>,
    pub heading_level: Option<u8>,
}

#[verifier::ext_equal]
pub struct DescriptionMergeBehaviourV {
    pub append: bool,
    pub title: Option<DescriptionTitleV>,
}

#[verifier::ext_equal]
pub enum DisputeV {
    Prefix { prefix: Seq<char>, always_apply: Option<bool> },
    Suffix { suffix: Seq<char>, always_apply: Option<bool> },
}

#[verifier::ext_equal]
pub struct SingleMergeInputV {
    pub oas: DocumentV,
    pub path_modification: Option<PathModificationV>,
    pub operation_selection: Option<OperationSelectionV>,
    pub description: Option<DescriptionMergeBehaviourV>,
    pub dispute: Option<DisputeV>,
    pub dispute_prefix: Option<Seq<char>>,
}

impl DeepView for OperationSelection {
    type V = OperationSelectionV;

    open spec fn deep_view(&self) -> OperationSelectionV {
        OperationSelectionV {
            include_tags: match self.include_tags {
                Option::None => Option::None,
                Option::Some(v) => Option::Some(v.deep_view()),
            },
            exclude_tags: match self.exclude_tags {
                Option::None => Option::None,
                Option::Some(v) => Option::Some(v.deep_view()),
            },
        }
    }
}

impl DeepView for PathModification {
    type V = PathModificationV;

    open spec fn deep_view(&self) -> PathModificationV {
        PathModificationV {
            strip_start: match self.strip_start {
                Option::None => Option::None,
                Option::Some(s) => Option::Some(s@),
            },
            prepend: match self.prepend {
                Option::None => Option::None,
                Option::Some(s) => Option::Some(s@),
            },
        }
    }
}

impl DeepView for DescriptionTitle {
    type V = DescriptionTitleV;

    open spec fn deep_view(&self) -> DescriptionTitleV {
        DescriptionTitleV {
            value: self.value@,
            heading_level: self.heading_level,
        }
    }
}

impl DeepView for DescriptionMergeBehaviour {
    type V = DescriptionMergeBehaviourV;

    open spec fn deep_view(&self) -> DescriptionMergeBehaviourV {
        DescriptionMergeBehaviourV {
            append: self.append,
            title: match self.title {
                Option::None => Option::None,
                Option::Some(t) => Option::Some(t.deep_view()),
            },
        }
    }
}

impl DeepView for Dispute {
    type V = DisputeV;

    open spec fn deep_view(&self) -> DisputeV {
        match self {
            Dispute::Prefix(p) => DisputeV::Prefix {
                prefix: p.prefix@,
                always_apply: p.always_apply,
            },
            Dispute::Suffix(s) => DisputeV::Suffix {
                suffix: s.suffix@,
                always_apply: s.always_apply,
            },
        }
    }
}

impl DeepView for SingleMergeInput {
    type V = SingleMergeInputV;

    open spec fn deep_view(&self) -> SingleMergeInputV {
        SingleMergeInputV {
            oas: view_document(self.oas),
            path_modification: match self.path_modification {
                Option::None => Option::None,
                Option::Some(p) => Option::Some(p.deep_view()),
            },
            operation_selection: match self.operation_selection {
                Option::None => Option::None,
                Option::Some(s) => Option::Some(s.deep_view()),
            },
            description: match self.description {
                Option::None => Option::None,
                Option::Some(d) => Option::Some(d.deep_view()),
            },
            dispute: match self.dispute {
                Option::None => Option::None,
                Option::Some(d) => Option::Some(d.deep_view()),
            },
            dispute_prefix: match self.dispute_prefix {
                Option::None => Option::None,
                Option::Some(s) => Option::Some(s@),
            },
        }
    }
}

// ------------------------------------------------------------------
// Configuration file records.
// ------------------------------------------------------------------

/// An input named by a file path.
#[derive(Debug, PartialEq)]
pub struct ConfigurationInputFromFile {
    pub input_file: String,
    pub base: ConfigurationInputBase,
}

/// An input named by a URL.
#[derive(Debug, PartialEq)]
pub struct ConfigurationInputFromUrl {
    pub input_url: String,
    pub base: ConfigurationInputBase,
}

/// The per-input settings shared by both input forms.
#[derive(Debug, PartialEq)]
pub struct ConfigurationInputBase {
    pub path_modification: Option<PathModification>,
    pub operation_selection: Option<OperationSelection>,
    pub description: Option<DescriptionMergeBehaviour>,
    pub dispute: Option<Dispute>,
    pub dispute_prefix: Option<String>,
}

/// One input of the configuration file.
#[derive(Debug, PartialEq)]
pub enum ConfigurationInput {
    FromFile(ConfigurationInputFromFile),
    FromUrl(ConfigurationInputFromUrl),
}

impl ConfigurationInput {
    /// The settings record of either input form.
    pub open spec fn spec_base(&self) -> ConfigurationInputBase {
        match self {
            ConfigurationInput::FromFile(i) => i.base,
            ConfigurationInput::FromUrl(i) => i.base,
        }
    }

    pub fn path_modification(&self) -> (r: Option<&PathModification>)
        ensures
            match r {
                Option::Some(p) => self.spec_base().path_modification == Option::Some(*p),
                Option::None => self.spec_base().path_modification is None,
            },
    {
        match self {
            ConfigurationInput::FromFile(input) => input.base.path_modification.as_ref(),
            ConfigurationInput::FromUrl(input) => input.base.path_modification.as_ref(),
        }
    }

    pub fn operation_selection(&self) -> (r: Option<&OperationSelection>)
        ensures
            match r {
                Option::Some(s) => self.spec_base().operation_selection == Option::Some(*s),
                Option::None => self.spec_base().operation_selection is None,
            },
    {
        match self {
            ConfigurationInput::FromFile(input) => input.base.operation_selection.as_ref(),
            ConfigurationInput::FromUrl(input) => input.base.operation_selection.as_ref(),
        }
    }

    pub fn description(&self) -> (r: Option<&DescriptionMergeBehaviour>)
        ensures
            match r {
                Option::Some(d) => self.spec_base().description == Option::Some(*d),
                Option::None => self.spec_base().description is None,
            },
    {
        match self {
            ConfigurationInput::FromFile(input) => input.base.description.as_ref(),
            ConfigurationInput::FromUrl(input) => input.base.description.as_ref(),
        }
    }

    pub fn dispute(&self) -> (r: Option<&Dispute>)
        ensures
            match r {
                Option::Some(d) => self.spec_base().dispute == Option::Some(*d),
                Option::None => self.spec_base().dispute is None,
            },
    {
        match self {
            ConfigurationInput::FromFile(input) => input.base.dispute.as_ref(),
            ConfigurationInput::FromUrl(input) => input.base.dispute.as_ref(),
        }
    }

    pub fn dispute_prefix(&self) -> (r: Option<&String>)
        ensures
            match r {
                Option::Some(p) => self.spec_base().dispute_prefix == Option::Some(*p),
                Option::None => self.spec_base().dispute_prefix is None,
            },
    {
        match self {
            ConfigurationInput::FromFile(input) => input.base.dispute_prefix.as_ref(),
            ConfigurationInput::FromUrl(input) => input.base.dispute_prefix.as_ref(),
        }
    }
}

/// The whole configuration file.
#[derive(Debug, PartialEq)]
pub struct Configuration {
    /// The inputs for the merge; at least one is required.
    pub inputs: Vec<ConfigurationInput>,
    /// Where the result is written; a `.yml`/`.yaml` extension selects
    /// YAML, anything else JSON.
    pub output: String,
    /// The `openapi` version stamped on the output; the first input's when
    /// absent.
    pub openapi_version: Option<String>,
}

} // verus!
